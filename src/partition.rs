use vstd::arithmetic::div_mod::lemma_fundamental_div_mod;
use vstd::arithmetic::mul::lemma_mul_inequality;
use vstd::prelude::*;

verus! {

/// One block of the resource: the half-open interval
/// `[start, start + length)`, fetched and stored under `index`.
#[derive(Clone, Copy, Debug, PartialEq, Eq, Structural)]
pub struct ByteRange {
    pub index: usize,
    pub start: u64,
    pub length: u64,
}

impl ByteRange {
    /// One past the last byte of the block.
    pub open spec fn end(self) -> int {
        self.start + self.length
    }
}

/// Where block `i` of `n` starts; block 0 absorbs the remainder.
pub open spec fn block_start(total: nat, n: nat, i: nat) -> nat
    recommends
        n > 0,
{
    if i == 0 {
        0
    } else {
        i * (total / n) + total % n
    }
}

/// How many bytes block `i` of `n` holds.
pub open spec fn block_length(total: nat, n: nat, i: nat) -> nat
    recommends
        n > 0,
{
    if i == 0 {
        total / n + total % n
    } else {
        total / n
    }
}

/// The blocks that a resource of `total` bytes is cut into, `n` of them.
pub open spec fn partition_spec(total: nat, n: nat) -> Seq<ByteRange>
    recommends
        n > 0,
{
    Seq::new(
        n,
        |i: int|
            ByteRange {
                index: i as usize,
                start: block_start(total, n, i as nat) as u64,
                length: block_length(total, n, i as nat) as u64,
            },
    )
}

/// The sum of the lengths of `rs`.
pub open spec fn total_length(rs: Seq<ByteRange>) -> int
    decreases rs.len(),
{
    if rs.len() == 0 {
        0
    } else {
        total_length(rs.drop_last()) + rs.last().length
    }
}

/// `rs` is a gap-free, overlap-free tiling of `[0, total)` in index order.
pub open spec fn tiles(rs: Seq<ByteRange>, total: int) -> bool {
    &&& rs.len() > 0
    &&& rs[0].start == 0
    &&& rs.last().end() == total
    &&& forall|i: int| 0 <= i < rs.len() ==> #[trigger] rs[i].index == i
    &&& forall|i: int| 0 <= i < rs.len() - 1 ==> #[trigger] rs[i].end() == rs[i + 1].start
    &&& forall|i: int, j: int|
        0 <= i < j < rs.len() ==> #[trigger] rs[i].end() <= #[trigger] rs[j].start
    &&& total_length(rs) == total
}

proof fn lemma_block_bounds(total: nat, n: nat, i: nat)
    requires
        n > 0,
        i < n,
    ensures
        block_start(total, n, i) + block_length(total, n, i) == (i + 1) * (total / n) + total
            % n,
        (i + 1) * (total / n) + total % n <= total,
{
    lemma_fundamental_div_mod(total as int, n as int);
    lemma_mul_inequality((i + 1) as int, n as int, (total / n) as int);
    let q: int = (total / n) as int;
    assert((i + 1) * q == i * q + q) by (nonlinear_arith);
    assert(n * q == q * n) by (nonlinear_arith);
}

proof fn lemma_partition_prefix(total: nat, n: nat, k: nat)
    requires
        n > 0,
        k <= n,
        total <= u64::MAX,
    ensures
        total_length(partition_spec(total, n).subrange(0, k as int)) == if k == 0 {
            0
        } else {
            k * (total / n) + total % n
        },
    decreases k,
{
    let rs = partition_spec(total, n);
    if k > 0 {
        lemma_partition_prefix(total, n, (k - 1) as nat);
        lemma_block_bounds(total, n, (k - 1) as nat);
        assert(rs.subrange(0, k as int).drop_last() =~= rs.subrange(0, k - 1));
    }
}

/// The partition of any length into any positive number of blocks tiles the
/// resource exactly: contiguous, non-overlapping, with lengths summing to the
/// total.
pub proof fn lemma_partition_tiles(total_length: u64, n: usize)
    requires
        n >= 1,
    ensures
        tiles(partition_spec(total_length as nat, n as nat), total_length as int),
{
    let total = total_length as nat;
    let n = n as nat;
    let rs = partition_spec(total, n);
    lemma_block_bounds(total, n, (n - 1) as nat);
    assert forall|i: int| 0 <= i < rs.len() - 1 implies #[trigger] rs[i].end() == rs[i
        + 1].start by {
        lemma_block_bounds(total, n, i as nat);
        lemma_block_bounds(total, n, (n - 1) as nat);
        lemma_mul_inequality(i + 1, n as int, (total / n) as int);
    };
    assert forall|i: int, j: int| 0 <= i < j < rs.len() implies #[trigger] rs[i].end()
        <= #[trigger] rs[j].start by {
        lemma_block_bounds(total, n, i as nat);
        lemma_block_bounds(total, n, (n - 1) as nat);
        lemma_mul_inequality(i + 1, n as int, (total / n) as int);
        lemma_mul_inequality(i + 1, j, (total / n) as int);
        lemma_mul_inequality(j, n as int, (total / n) as int);
    };
    lemma_partition_prefix(total, n, n);
    assert(rs.subrange(0, n as int) =~= rs);
    lemma_fundamental_div_mod(total as int, n as int);
    let q: int = (total / n) as int;
    assert(n * q == q * n) by (nonlinear_arith);
}

/// Cuts a resource of `total_length` bytes into `n` contiguous blocks. Block
/// 0 covers `[0, total_length / n + total_length % n)`; block `i >= 1` covers
/// `total_length / n` bytes from `i * (total_length / n) + total_length % n`.
pub fn partition(total_length: u64, n: usize) -> (r: Vec<ByteRange>)
    requires
        n >= 1,
    ensures
        r@ == partition_spec(total_length as nat, n as nat),
        tiles(r@, total_length as int),
{
    let n64: u64 = n as u64;
    let block_size: u64 = total_length / n64;
    let remainder: u64 = total_length % n64;
    let mut r: Vec<ByteRange> = Vec::new();
    let mut i: usize = 0;
    while i < n
        invariant
            n64 == n,
            1 <= n,
            block_size == total_length as nat / n as nat,
            remainder == total_length as nat % n as nat,
            i <= n,
            r@ =~= partition_spec(total_length as nat, n as nat).subrange(0, i as int),
        decreases n - i,
    {
        proof {
            lemma_block_bounds(total_length as nat, n as nat, i as nat);
            lemma_mul_inequality(i as int, (i + 1) as int, block_size as int);
        }
        let range = if i == 0 {
            ByteRange { index: 0, start: 0, length: block_size + remainder }
        } else {
            ByteRange {
                index: i,
                start: (i as u64) * block_size + remainder,
                length: block_size,
            }
        };
        r.push(range);
        i = i + 1;
    }
    proof {
        assert(partition_spec(total_length as nat, n as nat).subrange(0, n as int) =~= partition_spec(total_length as nat, n as nat));
        lemma_partition_tiles(total_length, n);
    }
    r
}

} // verus!
