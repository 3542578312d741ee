use crate::error::DownloadError;
use vstd::prelude::*;

verus! {

/// `c` is a lowercase hexadecimal digit.
pub open spec fn is_lower_hex(c: char) -> bool {
    ('0' <= c && c <= '9') || ('a' <= c && c <= 'f')
}

/// `s` is a hyphenated UUID in lowercase: 36 characters, hyphens at 8, 13,
/// 18 and 23, hexadecimal digits elsewhere. Such a name is one plain path
/// component.
pub open spec fn is_scratch_token(s: Seq<char>) -> bool {
    &&& s.len() == 36
    &&& forall|i: int|
        0 <= i < 36 ==> if i == 8 || i == 13 || i == 18 || i == 23 {
            #[trigger] s[i] == '-'
        } else {
            is_lower_hex(s[i])
        }
}

/// Relies on uuid's `Uuid::new_v4` and its `Display` impl: a random version 4
/// UUID, written as 36 characters of lowercase hex with four hyphens.
#[verifier::external_body]
fn new_scratch_token() -> (r: String)
    ensures
        is_scratch_token(r@),
{
    uuid::Uuid::new_v4().to_string()
}

/// The configuration of one run, fixed at start-up.
pub struct Config {
    /// Number of blocks fetched concurrently; at least one.
    pub size: usize,
    /// The resource to fetch.
    pub uri: String,
    /// Where the merged output goes; must not exist yet.
    pub file_path: String,
    /// Name of this run's scratch directory under the system's temporary
    /// directory; random, so that concurrent runs do not share it.
    pub temp_dir_name: String,
}

impl Config {
    /// Builds the configuration from validated input. A destination that
    /// already exists is refused before anything else happens; so is a block
    /// count of zero.
    pub fn get(size: usize, uri: String, file_path: String, destination_exists: bool) -> (r:
        Result<Config, DownloadError>)
        ensures
            destination_exists ==> r == Err::<Config, DownloadError>(
                DownloadError::DestinationExists,
            ),
            !destination_exists && size == 0 ==> r == Err::<Config, DownloadError>(
                DownloadError::InvalidConcurrency,
            ),
            !destination_exists && size > 0 ==> r is Ok,
            r is Ok ==> ({
                let c = r->Ok_0;
                &&& c.size == size
                &&& c.uri@ == uri@
                &&& c.file_path@ == file_path@
                &&& is_scratch_token(c.temp_dir_name@)
            }),
    {
        if destination_exists {
            return Err(DownloadError::DestinationExists);
        }
        if size == 0 {
            return Err(DownloadError::InvalidConcurrency);
        }
        let temp_dir_name = new_scratch_token();
        Ok(Config { size, uri, file_path, temp_dir_name })
    }
}

} // verus!
