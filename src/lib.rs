//! Chunked download engine: splits one remote resource into contiguous byte
//! ranges, tracks each block's transfer, and plans the ordered merge.
//!
//! Network and file work stays with the caller; every decision the engine
//! makes is a verified function of plain values.

pub mod block;
pub mod config;
pub mod decimal;
mod error;
pub mod merge;
pub mod partition;
pub mod probe;
pub mod session;

pub use block::{block_file_name, check_status, join_outcomes, range_header, BlockProgress};
pub use config::Config;
pub use error::DownloadError;
pub use merge::next_chunk_len;
pub use partition::{partition, ByteRange};
pub use probe::{read_metadata, ResourceMetadata};
pub use session::{Session, Stage};
