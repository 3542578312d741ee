use crate::partition::{partition_spec, tiles, lemma_partition_tiles, ByteRange};
use vstd::prelude::*;

verus! {

/// Size of the buffer the merge copies block files through.
pub const MERGE_BUFFER: u64 = 1024;

/// The bytes of `resource` that each block of `rs` holds, in index order.
pub open spec fn block_contents(resource: Seq<u8>, rs: Seq<ByteRange>) -> Seq<Seq<u8>> {
    rs.map_values(|r: ByteRange| resource.subrange(r.start as int, r.end()))
}

/// The blocks appended one after the other, block 0 first.
pub open spec fn concat(blocks: Seq<Seq<u8>>) -> Seq<u8>
    decreases blocks.len(),
{
    if blocks.len() == 0 {
        Seq::empty()
    } else {
        concat(blocks.drop_last()) + blocks.last()
    }
}

proof fn lemma_concat_prefix(resource: Seq<u8>, rs: Seq<ByteRange>, k: int)
    requires
        tiles(rs, resource.len() as int),
        1 <= k <= rs.len(),
    ensures
        concat(block_contents(resource, rs).subrange(0, k)) =~= resource.subrange(
            0,
            rs[k - 1].end(),
        ),
    decreases k,
{
    let blocks = block_contents(resource, rs);
    assert(blocks.subrange(0, k).drop_last() =~= blocks.subrange(0, k - 1));
    assert(rs[k - 1].end() <= rs.last().end()) by {
        if k - 1 < rs.len() - 1 {
            assert(rs[k - 1].end() <= rs[rs.len() - 1].start);
        }
    };
    if k == 1 {
        assert(blocks.subrange(0, 0) =~= Seq::<Seq<u8>>::empty());
        assert(concat(blocks.subrange(0, 0)) =~= Seq::<u8>::empty());
    } else {
        lemma_concat_prefix(resource, rs, k - 1);
        assert(rs[k - 2].end() == rs[k - 1].start);
    }
}

/// Concatenating the blocks of any exact tiling of a resource, in index order,
/// gives back the resource.
pub proof fn lemma_tiling_round_trip(resource: Seq<u8>, rs: Seq<ByteRange>)
    requires
        tiles(rs, resource.len() as int),
    ensures
        concat(block_contents(resource, rs)) == resource,
{
    lemma_concat_prefix(resource, rs, rs.len() as int);
    assert(block_contents(resource, rs).subrange(0, rs.len() as int) =~= block_contents(
        resource,
        rs,
    ));
    assert(resource.subrange(0, resource.len() as int) =~= resource);
}

/// For any positive block count, the block files of a resource, merged in
/// index order, reproduce the resource byte for byte. The order in which the
/// blocks finished does not appear: only their contents and indices do.
pub proof fn lemma_merge_round_trip(resource: Seq<u8>, n: usize)
    requires
        n >= 1,
        resource.len() <= u64::MAX,
    ensures
        concat(block_contents(resource, partition_spec(resource.len(), n as nat))) == resource,
{
    lemma_partition_tiles(resource.len() as u64, n);
    lemma_tiling_round_trip(resource, partition_spec(resource.len(), n as nat));
}

/// A single block gives the same merged output as any other block count.
pub proof fn lemma_block_count_unobservable(resource: Seq<u8>, n: usize)
    requires
        n >= 1,
        resource.len() <= u64::MAX,
    ensures
        concat(block_contents(resource, partition_spec(resource.len(), 1)))
            == concat(block_contents(resource, partition_spec(resource.len(), n as nat))),
{
    lemma_merge_round_trip(resource, 1);
    lemma_merge_round_trip(resource, n);
}

/// How many bytes the next copy step of the merge moves, for a block file of
/// `size` bytes of which `copied` are already appended to the output. The
/// first step takes the remainder `size % MERGE_BUFFER` (when it is not zero),
/// every later one a full buffer; zero means the block is done.
pub fn next_chunk_len(size: u64, copied: u64) -> (r: u64)
    requires
        copied <= size,
    ensures
        copied == size ==> r == 0,
        copied < size ==> 0 < r <= MERGE_BUFFER,
        r <= size - copied,
        (size - copied - r) % (MERGE_BUFFER as int) == 0,
{
    let rest: u64 = size - copied;
    let part: u64 = rest % MERGE_BUFFER;
    if part != 0 {
        part
    } else if rest == 0 {
        0
    } else {
        MERGE_BUFFER
    }
}

} // verus!
