use vstd::prelude::*;

verus! {

/// Every way a download run can fail. Each one is fatal for the run.
#[derive(Clone, Copy, Debug, PartialEq, Eq, Structural)]
pub enum DownloadError {
    /// The destination path exists before the run starts.
    DestinationExists,
    /// The requested number of concurrent blocks is zero.
    InvalidConcurrency,
    /// The server reported no usable total length.
    MissingLength,
    /// The server does not advertise `Accept-Ranges: bytes`.
    RangeUnsupported,
    /// A block fetch failed: transport error, non-success status, or a body
    /// whose size differs from the requested range.
    TransferError,
    /// Reading a block file or writing the output file failed.
    MergeIOError,
}

impl DownloadError {
    /// A short description of the failed stage.
    pub fn message(&self) -> (r: &'static str) {
        match self {
            DownloadError::DestinationExists => "destination file already exists",
            DownloadError::InvalidConcurrency => "concurrency must be at least one",
            DownloadError::MissingLength => "server did not report a content length",
            DownloadError::RangeUnsupported => "server does not support byte ranges",
            DownloadError::TransferError => "a block transfer failed",
            DownloadError::MergeIOError => "merging block files failed",
        }
    }
}

} // verus!
