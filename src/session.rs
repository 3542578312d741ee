use crate::block::{first_failure, join_outcomes};
use crate::config::Config;
use crate::error::DownloadError;
use crate::partition::{partition, partition_spec, ByteRange};
use crate::probe::{bytes_unit, length_digits, read_metadata, valid_length};
use crate::decimal::digits_value;
use vstd::prelude::*;

verus! {

/// Where a run stands. The caller performs the work that a stage names and
/// reports its outcome; the session decides what comes next.
#[derive(Clone, Copy, Debug, PartialEq, Eq, Structural)]
pub enum Stage {
    /// Waiting for the answer to the metadata request.
    Probing,
    /// The scratch directory is made and all blocks are being fetched.
    Downloading,
    /// All blocks arrived; their files are being appended to the output.
    Merging,
    /// The output is complete; the scratch directory is being removed.
    Cleaning,
    /// The run succeeded.
    Done,
    /// The run failed. Scratch files are left in place for inspection.
    Failed,
}

/// The decisions of one download run.
pub struct Session {
    /// Number of blocks; at least one.
    pub blocks: usize,
    pub stage: Stage,
    /// The resource's size, known once the probe succeeded.
    pub total_length: u64,
}

impl Session {
    /// A run for `config`, which starts by probing the resource.
    pub fn new(config: &Config) -> (r: Session)
        requires
            config.size >= 1,
        ensures
            r.blocks == config.size,
            r.stage == Stage::Probing,
            r.total_length == 0,
    {
        Session { blocks: config.size, stage: Stage::Probing, total_length: 0 }
    }

    /// Takes the probe response's `Content-Length` and `Accept-Ranges`
    /// values. On success the caller creates the scratch directory and
    /// fetches the returned blocks concurrently; on failure nothing more is
    /// done.
    pub fn on_probe(&mut self, content_length: Option<Vec<u8>>, accept_ranges: Option<Vec<u8>>) -> (r:
        Result<Vec<ByteRange>, DownloadError>)
        requires
            old(self).stage == Stage::Probing,
            old(self).blocks >= 1,
        ensures
            final(self).blocks == old(self).blocks,
            match content_length {
                None => r == Err::<Vec<ByteRange>, DownloadError>(DownloadError::MissingLength),
                Some(v) => if !valid_length(v@) {
                    r == Err::<Vec<ByteRange>, DownloadError>(DownloadError::MissingLength)
                } else if accept_ranges.is_none() || accept_ranges.unwrap()@ != bytes_unit() {
                    r == Err::<Vec<ByteRange>, DownloadError>(DownloadError::RangeUnsupported)
                } else {
                    r is Ok && final(self).total_length == digits_value(length_digits(v@))
                },
            },
            r is Err ==> final(self).stage == Stage::Failed,
            r is Ok ==> final(self).stage == Stage::Downloading && r->Ok_0@ == partition_spec(
                final(self).total_length as nat,
                final(self).blocks as nat,
            ),
    {
        match read_metadata(content_length, accept_ranges) {
            Err(e) => {
                self.stage = Stage::Failed;
                Err(e)
            },
            Ok(meta) => {
                self.stage = Stage::Downloading;
                self.total_length = meta.total_length;
                Ok(partition(meta.total_length, self.blocks))
            },
        }
    }

    /// Takes the outcome of every block download, in block order, once all
    /// of them have finished. The merge starts only when every block
    /// succeeded; otherwise the run fails with the first failed block's
    /// error (a missing outcome counts as a failed transfer).
    pub fn on_blocks_joined(&mut self, outcomes: &Vec<Result<(), DownloadError>>) -> (r: Result<
        (),
        DownloadError,
    >)
        requires
            old(self).stage == Stage::Downloading,
        ensures
            final(self).blocks == old(self).blocks,
            final(self).total_length == old(self).total_length,
            r is Ok <==> outcomes.len() == old(self).blocks && (forall|i: int|
                0 <= i < outcomes.len() ==> #[trigger] outcomes@[i] is Ok),
            r is Ok ==> final(self).stage == Stage::Merging,
            r is Err ==> final(self).stage == Stage::Failed,
            r is Err && outcomes.len() == old(self).blocks ==> r == outcomes@[first_failure(
                outcomes@,
            )],
            outcomes.len() != old(self).blocks ==> r == Err::<(), DownloadError>(
                DownloadError::TransferError,
            ),
    {
        if outcomes.len() != self.blocks {
            self.stage = Stage::Failed;
            return Err(DownloadError::TransferError);
        }
        let r = join_outcomes(outcomes);
        if r.is_ok() {
            self.stage = Stage::Merging;
        } else {
            self.stage = Stage::Failed;
        }
        r
    }

    /// Takes whether appending all block files to the output succeeded. On
    /// success the caller removes the scratch directory; on failure it is
    /// left in place.
    pub fn on_merged(&mut self, ok: bool) -> (r: Result<(), DownloadError>)
        requires
            old(self).stage == Stage::Merging,
        ensures
            final(self).blocks == old(self).blocks,
            final(self).total_length == old(self).total_length,
            ok ==> r is Ok && final(self).stage == Stage::Cleaning,
            !ok ==> r == Err::<(), DownloadError>(DownloadError::MergeIOError)
                && final(self).stage == Stage::Failed,
    {
        if ok {
            self.stage = Stage::Cleaning;
            Ok(())
        } else {
            self.stage = Stage::Failed;
            Err(DownloadError::MergeIOError)
        }
    }

    /// Takes whether the scratch directory was removed; the run is done then.
    pub fn on_cleaned(&mut self, ok: bool) -> (r: Result<(), DownloadError>)
        requires
            old(self).stage == Stage::Cleaning,
        ensures
            final(self).blocks == old(self).blocks,
            final(self).total_length == old(self).total_length,
            ok ==> r is Ok && final(self).stage == Stage::Done,
            !ok ==> r == Err::<(), DownloadError>(DownloadError::MergeIOError)
                && final(self).stage == Stage::Failed,
    {
        if ok {
            self.stage = Stage::Done;
            Ok(())
        } else {
            self.stage = Stage::Failed;
            Err(DownloadError::MergeIOError)
        }
    }
}

} // verus!
