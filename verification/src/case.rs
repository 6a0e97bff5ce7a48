//! Unicode case mapping, obtained from `std`.

use vstd::prelude::*;

verus! {

/// `char::is_ascii`.
pub open spec fn ascii_char(c: char) -> bool {
    (c as u32) < 128
}

/// Every character of `s` is ASCII (`str::is_ascii`).
pub open spec fn all_ascii(s: Seq<char>) -> bool {
    forall|k: int| 0 <= k < s.len() ==> ascii_char(#[trigger] s[k])
}

/// `char::to_ascii_lowercase`: `A`..`Z` become `a`..`z`.
pub open spec fn ascii_lower(c: char) -> char {
    if 'A' <= c && c <= 'Z' {
        ((c as u32) + 32) as char
    } else {
        c
    }
}

/// `char::to_ascii_uppercase`: `a`..`z` become `A`..`Z`.
pub open spec fn ascii_upper(c: char) -> char {
    if 'a' <= c && c <= 'z' {
        ((c as u32) - 32) as char
    } else {
        c
    }
}

/// `s` with every character mapped by `ascii_lower`.
pub open spec fn lower_seq(s: Seq<char>) -> Seq<char> {
    s.map_values(|c: char| ascii_lower(c))
}

/// `s` with every character mapped by `ascii_upper`.
pub open spec fn upper_seq(s: Seq<char>) -> Seq<char> {
    s.map_values(|c: char| ascii_upper(c))
}

/// The lower-case mapping of `s` (`str::to_lowercase`).
pub uninterp spec fn lowercase(s: Seq<char>) -> Seq<char>;

/// The upper-case mapping of `s` (`str::to_uppercase`).
pub uninterp spec fn uppercase(s: Seq<char>) -> Seq<char>;

/// The upper-case mapping of one character (`char::to_uppercase`), which
/// may be several characters long.
pub uninterp spec fn char_uppercase(c: char) -> Seq<char>;

/// `str::to_lowercase`.  Trusted: the result is taken to depend on the
/// characters of `s` alone, and on ASCII text to be the ASCII lower case
/// (the Unicode lower-case mapping of `A`..`Z` is `a`..`z`; other ASCII
/// characters have none).
#[verifier::external_body]
pub fn to_lowercase(s: &str) -> (r: String)
    ensures
        r@ == lowercase(s@),
        all_ascii(s@) ==> r@ == lower_seq(s@),
{
    s.to_lowercase()
}

/// `str::to_uppercase`.  Trusted: the result is taken to depend on the
/// characters of `s` alone, and on ASCII text to be the ASCII upper case.
#[verifier::external_body]
pub fn to_uppercase(s: &str) -> (r: String)
    ensures
        r@ == uppercase(s@),
        all_ascii(s@) ==> r@ == upper_seq(s@),
{
    s.to_uppercase()
}

/// `char::to_uppercase`, collected into a string.  Trusted: the result is
/// taken to depend on `c` alone, and for an ASCII character to be its
/// ASCII upper case.
#[verifier::external_body]
pub fn char_to_uppercase(c: char) -> (r: String)
    ensures
        r@ == char_uppercase(c),
        ascii_char(c) ==> r@ == seq![ascii_upper(c)],
{
    c.to_uppercase().to_string()
}

} // verus!
