//! Picking fields out of the pieces of a split line.

use vstd::prelude::*;

use crate::text::{parse_i64, parse_i64_exec, parse_u64, parse_u64_exec, string_of, words, words_exec};

verus! {

/// The `k`-th piece, or nothing when there are fewer pieces
/// (`parts.next().unwrap_or("")`).
pub open spec fn nth_or_empty(parts: Seq<Seq<char>>, k: int) -> Seq<char> {
    if 0 <= k < parts.len() {
        parts[k]
    } else {
        Seq::empty()
    }
}

/// The `k`-th piece as a number, or 0 when it is missing or not a number
/// (`parts.next().and_then(|s| s.parse().ok()).unwrap_or(0)`).
pub open spec fn nth_u64_or_zero(parts: Seq<Seq<char>>, k: int) -> u64 {
    if 0 <= k < parts.len() {
        match parse_u64(parts[k]) {
            Some(v) => v,
            None => 0,
        }
    } else {
        0
    }
}

/// The `k`-th piece as a signed number, if it is present and one.
pub open spec fn nth_i64(parts: Seq<Seq<char>>, k: int) -> Option<i64> {
    if 0 <= k < parts.len() {
        parse_i64(parts[k])
    } else {
        None
    }
}

/// The first whitespace-separated word of `s`, or `s` itself when it has
/// none (`s.split_whitespace().next().unwrap_or(s)`).
pub open spec fn first_word_or_self(s: Seq<char>) -> Seq<char> {
    if words(s).len() > 0 {
        words(s)[0]
    } else {
        s
    }
}

pub open spec fn piece_views(v: Seq<Vec<char>>) -> Seq<Seq<char>> {
    crate::text::views(v)
}

pub fn nth_string(parts: &Vec<Vec<char>>, k: usize) -> (r: String)
    ensures
        r@ == nth_or_empty(piece_views(parts@), k as int),
{
    if k < parts.len() {
        string_of(&parts[k])
    } else {
        String::new()
    }
}

pub fn nth_u64_or_zero_exec(parts: &Vec<Vec<char>>, k: usize) -> (r: u64)
    ensures
        r == nth_u64_or_zero(piece_views(parts@), k as int),
{
    if k < parts.len() {
        match parse_u64_exec(&parts[k]) {
            Some(v) => v,
            None => 0,
        }
    } else {
        0
    }
}

pub fn nth_i64_exec(parts: &Vec<Vec<char>>, k: usize) -> (r: Option<i64>)
    ensures
        r == nth_i64(piece_views(parts@), k as int),
{
    if k < parts.len() {
        parse_i64_exec(&parts[k])
    } else {
        None
    }
}

pub fn first_word_or_self_exec(s: &Vec<char>) -> (r: Vec<char>)
    ensures
        r@ == first_word_or_self(s@),
{
    let ws = words_exec(s);
    if ws.len() > 0 {
        ws[0].clone()
    } else {
        s.clone()
    }
}

} // verus!
