use crate::decimal::{all_digits, digits_value, parse_digits};
use crate::error::DownloadError;
use vstd::prelude::*;

verus! {

/// What the probe learned of the resource.
#[derive(Clone, Copy, Debug, PartialEq, Eq, Structural)]
pub struct ResourceMetadata {
    /// The resource's size in bytes.
    pub total_length: u64,
    /// The server advertised `Accept-Ranges: bytes`.
    pub accepts_ranges: bool,
}

/// The range unit the engine needs: `bytes`.
pub open spec fn bytes_unit() -> Seq<u8> {
    seq![98u8, 121u8, 116u8, 101u8, 115u8]
}

/// A `Content-Length` value without its optional leading `+`.
pub open spec fn length_digits(v: Seq<u8>) -> Seq<u8> {
    if v.len() > 0 && v[0] == 43u8 {
        v.drop_first()
    } else {
        v
    }
}

/// `v` is a `Content-Length` value that denotes a size the engine can hold.
pub open spec fn valid_length(v: Seq<u8>) -> bool {
    let d = length_digits(v);
    d.len() > 0 && all_digits(d) && digits_value(d) <= u64::MAX
}

/// Reads a `Content-Length` value: decimal digits after an optional `+`.
pub fn parse_length(v: &Vec<u8>) -> (r: Option<u64>)
    ensures
        r.is_some() == valid_length(v@),
        r.is_some() ==> r.unwrap() == digits_value(length_digits(v@)),
{
    let from: usize = if v.len() > 0 && v[0] == 43u8 {
        1
    } else {
        0
    };
    let r = parse_digits(v, from);
    proof {
        if from == 1 {
            assert(v@.subrange(1, v@.len() as int) =~= v@.drop_first());
        } else {
            assert(v@.subrange(0, v@.len() as int) =~= v@);
        }
    }
    r
}

/// `v` is exactly the unit `bytes`.
pub fn is_bytes_unit(v: &Vec<u8>) -> (r: bool)
    ensures
        r == (v@ == bytes_unit()),
{
    let r = v.len() == 5 && v[0] == 98u8 && v[1] == 121u8 && v[2] == 116u8 && v[3] == 101u8
        && v[4] == 115u8;
    proof {
        if r {
            assert(v@ =~= bytes_unit());
        }
    }
    r
}

/// Decides from the probe response's `Content-Length` and `Accept-Ranges`
/// values (absent when the header is missing) whether the resource can be
/// fetched in ranges, and how large it is. The length is looked at first.
pub fn read_metadata(content_length: Option<Vec<u8>>, accept_ranges: Option<Vec<u8>>) -> (r:
    Result<ResourceMetadata, DownloadError>)
    ensures
        match content_length {
            None => r == Err::<ResourceMetadata, DownloadError>(DownloadError::MissingLength),
            Some(v) => if !valid_length(v@) {
                r == Err::<ResourceMetadata, DownloadError>(DownloadError::MissingLength)
            } else if accept_ranges.is_none() || accept_ranges.unwrap()@ != bytes_unit() {
                r == Err::<ResourceMetadata, DownloadError>(DownloadError::RangeUnsupported)
            } else {
                r == Ok::<ResourceMetadata, DownloadError>(
                    ResourceMetadata {
                        total_length: digits_value(length_digits(v@)) as u64,
                        accepts_ranges: true,
                    },
                )
            },
        },
{
    let total_length = match &content_length {
        None => return Err(DownloadError::MissingLength),
        Some(v) => match parse_length(v) {
            None => return Err(DownloadError::MissingLength),
            Some(n) => n,
        },
    };
    match &accept_ranges {
        None => Err(DownloadError::RangeUnsupported),
        Some(u) => if is_bytes_unit(u) {
            Ok(ResourceMetadata { total_length, accepts_ranges: true })
        } else {
            Err(DownloadError::RangeUnsupported)
        },
    }
}

} // verus!
