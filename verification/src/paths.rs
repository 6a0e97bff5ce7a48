//! File-name facts obtained from `std::path`.
//!
//! The parsers ask two questions of a path given as text: its file stem
//! and its extension.  `std::path` answers them; each answer is named here
//! as a function of the path's characters.

use vstd::prelude::*;

verus! {

/// The file stem of the path `p` (`Path::file_stem`).
pub uninterp spec fn path_file_stem(p: Seq<char>) -> Option<Seq<char>>;

/// The extension of the path `p` (`Path::extension`).
pub uninterp spec fn path_extension(p: Seq<char>) -> Option<Seq<char>>;

/// `Path::new(p).file_stem()` as a string.  Trusted: the result is taken
/// to depend on the characters of `p` alone.
#[verifier::external_body]
pub fn file_stem(p: &str) -> (r: Option<String>)
    ensures
        match r {
            Some(c) => path_file_stem(p@) == Some(c@),
            None => path_file_stem(p@) is None,
        },
{
    std::path::Path::new(p).file_stem().and_then(|s| s.to_str()).map(|s| s.to_string())
}

/// `Path::new(p).extension()` as a string.  Trusted: the result is taken
/// to depend on the characters of `p` alone.
#[verifier::external_body]
pub fn extension(p: &str) -> (r: Option<String>)
    ensures
        match r {
            Some(c) => path_extension(p@) == Some(c@),
            None => path_extension(p@) is None,
        },
{
    std::path::Path::new(p).extension().map(|s| s.to_string_lossy().to_string())
}

} // verus!
