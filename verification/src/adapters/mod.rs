//! Logic shared by the package adapters: the error type, application
//! identifiers, the lines a backend command prints, size accounting and
//! the staged uninstall.

pub mod appimage;
pub mod dnf;
pub mod dpkg;
pub mod flatpak;
pub mod fields;
pub mod sizes;
pub mod snap;
pub mod uninstall;

use vstd::prelude::*;

use crate::text::{chars_of, lines, lines_exec, push_str, string_of, string_views, strip_prefix, strip_prefix_exec};

verus! {

#[verifier::external_type_specification]
#[verifier::external_body]
pub struct ExIoError(std::io::Error);

#[verifier::external_type_specification]
#[verifier::external_body]
pub struct ExAnyhowError(anyhow::Error);

/// Why an adapter could not answer.
#[derive(Debug)]
pub enum AdapterError {
    NotAvailable(String),
    Backend(String),
    AppNotFound(String),
    PermissionDenied(String),
    Io(std::io::Error),
    Parse(String),
    Cancelled,
    Other(anyhow::Error),
}

/// The characters of an application id once its source prefix is removed
/// (`app_id.strip_prefix(prefix).unwrap_or(app_id)`).
pub open spec fn unprefixed(app_id: Seq<char>, prefix: Seq<char>) -> Seq<char> {
    match strip_prefix(app_id, prefix) {
        Some(rest) => rest,
        None => app_id,
    }
}

/// The backend's name for the application `app_id` (e.g. `"apt:vim"` with
/// prefix `"apt:"` names the package `"vim"`; an id without the prefix is
/// taken as the name itself).
pub fn strip_source_prefix(app_id: &str, prefix: &str) -> (r: String)
    ensures
        r@ == unprefixed(app_id@, prefix@),
{
    let id = chars_of(app_id);
    match strip_prefix_exec(&id, prefix) {
        Some(rest) => string_of(&rest),
        None => string_of(&id),
    }
}

/// The application id `prefix` + `name` (e.g. `"rpm:"` + `"bash"`).
pub fn prefixed_id(prefix: &str, name: &str) -> (r: String)
    ensures
        r@ == prefix@ + name@,
{
    let mut s = String::new();
    push_str(&mut s, prefix);
    push_str(&mut s, name);
    assert(Seq::<char>::empty() + prefix@ + name@ =~= prefix@ + name@);
    s
}

/// A backend command's output as lines (`str::lines` of its standard
/// output), or a backend error carrying its standard error when it did
/// not succeed.
pub fn command_lines(tool: &str, success: bool, stdout: &str, stderr: &str) -> (r: Result<
    Vec<String>,
    AdapterError,
>)
    ensures
        success ==> (r matches Ok(v) && string_views(v@) == lines(stdout@)),
        !success ==> (r matches Err(AdapterError::Backend(m)) && m@ == tool@ + " failed: "@
            + stderr@),
{
    if success {
        Ok(lines_exec(stdout))
    } else {
        let mut m = String::new();
        push_str(&mut m, tool);
        push_str(&mut m, " failed: ");
        push_str(&mut m, stderr);
        assert(Seq::<char>::empty() + tool@ + " failed: "@ + stderr@ =~= tool@ + " failed: "@
            + stderr@);
        Err(AdapterError::Backend(m))
    }
}

/// The lines that are not empty, in order.
pub open spec fn non_empty(lines: Seq<Seq<char>>) -> Seq<Seq<char>> {
    lines.filter(|l: Seq<char>| l.len() > 0)
}

/// The lines that are not empty, in order.
pub fn non_empty_lines(lines: &Vec<String>) -> (r: Vec<String>)
    ensures
        string_views(r@) == non_empty(string_views(lines@)),
{
    let mut out: Vec<String> = Vec::new();
    let mut i: usize = 0;
    while i < lines.len()
        invariant
            i <= lines@.len(),
            string_views(out@) == non_empty(string_views(lines@).take(i as int)),
        decreases lines@.len() - i,
    {
        let ghost prev = out@;
        proof {
            reveal_with_fuel(Seq::filter, 1);
            assert(string_views(lines@).take(i + 1).drop_last() =~= string_views(lines@).take(
                i as int,
            ));
        }
        assert(string_views(lines@).take(i + 1).last() == lines@[i as int]@);
        if !lines[i].as_str().is_empty() {
            let l = lines[i].clone();
            out.push(l);
            assert(string_views(out@) =~= string_views(prev).push(l@));
        }
        i += 1;
    }
    assert(string_views(lines@).take(lines@.len() as int) =~= string_views(lines@));
    out
}

/// The "not available" error with the given message.
pub fn not_available(message: &str) -> (r: AdapterError)
    ensures
        r matches AdapterError::NotAvailable(m) && m@ == message@,
{
    AdapterError::NotAvailable(String::from_str(message))
}

} // verus!
