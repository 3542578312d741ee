use crate::decimal::{decimal, push_decimal};
use crate::error::DownloadError;
use crate::partition::ByteRange;
use vstd::prelude::*;

verus! {

/// `bytes=`, the prefix of a `Range` header value.
pub open spec fn range_prefix() -> Seq<u8> {
    seq![98u8, 121u8, 116u8, 101u8, 115u8, 61u8]
}

/// The `Range` header value asking for the inclusive bytes `first..=last`.
pub open spec fn range_value(first: nat, last: nat) -> Seq<u8> {
    range_prefix() + decimal(first) + seq![45u8] + decimal(last)
}

/// The name of the scratch file that holds block `index`: its decimal text.
pub fn block_file_name(index: usize) -> (r: Vec<u8>)
    ensures
        r@ == decimal(index as nat),
{
    let mut r: Vec<u8> = Vec::new();
    push_decimal(&mut r, index as u64);
    assert(r@ =~= decimal(index as nat));
    r
}

/// The `Range` header value for a block: `bytes=<start>-<end>` with inclusive
/// bounds. A block of zero bytes has no such value and is not fetched: its
/// block file is left empty.
pub fn range_header(range: &ByteRange) -> (r: Option<Vec<u8>>)
    requires
        range.end() <= u64::MAX,
    ensures
        range.length == 0 ==> r.is_none(),
        range.length > 0 ==> r.is_some() && r.unwrap()@ == range_value(
            range.start as nat,
            (range.end() - 1) as nat,
        ),
{
    if range.length == 0 {
        return None;
    }
    let mut v: Vec<u8> = Vec::new();
    v.push(98u8);
    v.push(121u8);
    v.push(116u8);
    v.push(101u8);
    v.push(115u8);
    v.push(61u8);
    assert(v@ =~= range_prefix());
    push_decimal(&mut v, range.start);
    v.push(45u8);
    push_decimal(&mut v, range.start + range.length - 1);
    assert(v@ =~= range_value(range.start as nat, (range.end() - 1) as nat));
    Some(v)
}

/// A block response is usable only with a success status, 200 to 299.
pub fn check_status(status: u16) -> (r: Result<(), DownloadError>)
    ensures
        r is Ok <==> 200 <= status <= 299,
        r is Err ==> r == Err::<(), DownloadError>(DownloadError::TransferError),
{
    if 200 <= status && status <= 299 {
        Ok(())
    } else {
        Err(DownloadError::TransferError)
    }
}

/// Counts the bytes of one block as they stream in, for progress reporting
/// and for the final size check.
pub struct BlockProgress {
    pub range: ByteRange,
    pub received: u64,
}

impl BlockProgress {
    /// Nothing received yet.
    pub fn new(range: ByteRange) -> (r: BlockProgress)
        ensures
            r.range == range,
            r.received == 0,
    {
        BlockProgress { range, received: 0 }
    }

    /// Counts a chunk of `len` bytes and returns the running total, which
    /// never decreases (it stops at `u64::MAX`).
    pub fn record(&mut self, len: usize) -> (r: u64)
        ensures
            final(self).range == old(self).range,
            final(self).received as int == if old(self).received + len <= u64::MAX {
                old(self).received + len
            } else {
                u64::MAX as int
            },
            final(self).received >= old(self).received,
            r == final(self).received,
    {
        self.received = self.received.saturating_add(len as u64);
        self.received
    }

    /// The block is complete only when it received exactly its length; a
    /// body of any other size is a failed transfer.
    pub fn finish(&self) -> (r: Result<(), DownloadError>)
        ensures
            r is Ok <==> self.received == self.range.length,
            r is Err ==> r == Err::<(), DownloadError>(DownloadError::TransferError),
    {
        if self.received == self.range.length {
            Ok(())
        } else {
            Err(DownloadError::TransferError)
        }
    }
}

/// Index of the first failed outcome, or `outcomes.len()` when all succeeded.
pub open spec fn first_failure(outcomes: Seq<Result<(), DownloadError>>) -> int
    decreases outcomes.len(),
{
    if outcomes.len() == 0 {
        0
    } else if outcomes[0] is Err {
        0
    } else {
        1 + first_failure(outcomes.drop_first())
    }
}

proof fn lemma_first_failure(outcomes: Seq<Result<(), DownloadError>>)
    ensures
        0 <= first_failure(outcomes) <= outcomes.len(),
        forall|i: int| 0 <= i < first_failure(outcomes) ==> #[trigger] outcomes[i] is Ok,
        first_failure(outcomes) < outcomes.len() ==> outcomes[first_failure(outcomes)] is Err,
    decreases outcomes.len(),
{
    if outcomes.len() > 0 && outcomes[0] is Ok {
        lemma_first_failure(outcomes.drop_first());
        assert forall|i: int| 0 <= i < first_failure(outcomes) implies #[trigger] outcomes[i] is Ok by {
            if i > 0 {
                assert(outcomes[i] == outcomes.drop_first()[i - 1]);
            }
        };
    }
}

/// Joins the outcomes of all block downloads, taken in index order: the run
/// goes on only when every block succeeded, and otherwise fails with the
/// error of the lowest-indexed failed block.
pub fn join_outcomes(outcomes: &Vec<Result<(), DownloadError>>) -> (r: Result<(), DownloadError>)
    ensures
        r is Ok <==> (forall|i: int| 0 <= i < outcomes.len() ==> #[trigger] outcomes@[i] is Ok),
        r is Err ==> r == outcomes@[first_failure(outcomes@)],
{
    proof {
        lemma_first_failure(outcomes@);
    }
    let mut i: usize = 0;
    while i < outcomes.len()
        invariant
            i <= outcomes.len(),
            i <= first_failure(outcomes@),
            0 <= first_failure(outcomes@) <= outcomes.len(),
            forall|j: int| 0 <= j < first_failure(outcomes@) ==> #[trigger] outcomes@[j] is Ok,
            first_failure(outcomes@) < outcomes.len() ==> outcomes@[first_failure(outcomes@)] is Err,
        decreases outcomes.len() - i,
    {
        match &outcomes[i] {
            Ok(()) => {},
            Err(e) => {
                return Err(*e);
            },
        }
        i = i + 1;
    }
    Ok(())
}

} // verus!
