//! The names of things on disk: compression formats told by file suffix,
//! which directory entries are samples, and the name of a compressed sample.

use vstd::prelude::*;
use crate::text::same_text;

verus! {

/// The compressed formats that test files may hold.
#[derive(Clone, Copy, Debug, PartialEq, Eq, Structural)]
pub enum Format {
    ZlibFormat,
    GzipFormat,
}

/// Whether a file suffix names a known format.
pub open spec fn known_suffix(suffix: Option<&str>) -> bool {
    match suffix {
        Some(s) => s@ == ".zlib"@ || s@ == ".gz"@,
        None => false,
    }
}

/// The format named by a file suffix: `.zlib` for zlib, `.gz` for gzip.
/// Any other suffix, or none, is refused.
pub fn suffix_to_format(suffix: Option<&str>) -> (f: Format)
    requires
        known_suffix(suffix),
    ensures
        suffix.unwrap()@ == ".zlib"@ ==> f == Format::ZlibFormat,
        suffix.unwrap()@ == ".gz"@ ==> f == Format::GzipFormat,
{
    let s = suffix.unwrap();
    proof {
        reveal_strlit(".zlib");
        reveal_strlit(".gz");
        assert(".gz"@.len() != ".zlib"@.len());
    }
    if same_text(s, ".zlib") {
        Format::ZlibFormat
    } else {
        Format::GzipFormat
    }
}

/// Whether a directory entry is a sample: its name does not start with `.`
/// or `_`.
pub fn is_sample_name(name: &str) -> (r: bool)
    requires
        name@.len() > 0,
    ensures
        r == (name@[0] != '.' && name@[0] != '_'),
{
    let c = name.get_char(0);
    c != '.' && c != '_'
}

/// The file name under which a sample is stored zlib-compressed.
pub fn compressed_name(name: &str) -> (r: String)
    ensures
        r@ == name@ + ".zlib"@,
{
    let mut r = String::from_str(name);
    r.append(".zlib");
    r
}

} // verus!
