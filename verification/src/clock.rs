//! Calendar facts obtained from `chrono` and the system clock.
//!
//! Timestamps are held throughout the library as seconds since the Unix
//! epoch (`i64`); `chrono` tells which of them it can represent, and the
//! system clock (`std::time::SystemTime`) tells the current one.

use vstd::prelude::*;

verus! {

/// Whether `chrono` can represent the instant `secs` seconds after the Unix
/// epoch as a `DateTime<Utc>`: `Utc.timestamp_opt(secs, 0)` yields `Single`
/// exactly from `DateTime::<Utc>::MIN_UTC` to `DateTime::<Utc>::MAX_UTC`,
/// whose timestamps are these bounds.
pub open spec fn utc_timestamp_representable(secs: i64) -> bool {
    -8_334_601_228_800 <= secs && secs <= 8_210_266_876_799
}

/// Calls `chrono::TimeZone::timestamp_opt(&Utc, secs, 0)` and reports
/// whether it produced a single date-time.  Trusted: the result is that
/// `secs` lies in chrono's range (`utc_timestamp_representable`).
#[verifier::external_body]
pub fn utc_timestamp_valid(secs: i64) -> (r: bool)
    ensures
        r == utc_timestamp_representable(secs),
{
    chrono::TimeZone::timestamp_opt(&chrono::Utc, secs, 0).single().is_some()
}

#[verifier::external_type_specification]
#[verifier::external_body]
pub struct ExSystemTime(std::time::SystemTime);

/// `SystemTime::now`.  Trusted, with no claim on the result: it is the
/// system clock.
#[verifier::external_body]
fn system_now() -> (r: std::time::SystemTime) {
    std::time::SystemTime::now()
}

/// `SystemTime::duration_since(UNIX_EPOCH)` in whole seconds
/// (`Duration::as_secs`), or `None` when `t` lies before the epoch.
/// Trusted, with no claim on the result: nothing of `t` is known here.
#[verifier::external_body]
fn whole_seconds_since_epoch(t: &std::time::SystemTime) -> (r: Option<u64>) {
    t.duration_since(std::time::UNIX_EPOCH).ok().map(|d| d.as_secs())
}

/// The current time in whole seconds since the Unix epoch, when the system
/// clock is at or after the epoch (and the count fits in an `i64`).
pub fn now_unix_seconds() -> (r: Option<i64>)
    ensures
        r matches Some(t) ==> t >= 0,
{
    let now = system_now();
    match whole_seconds_since_epoch(&now) {
        Some(s) => if s <= 9_223_372_036_854_775_807u64 {
            Some(s as i64)
        } else {
            None
        },
        None => None,
    }
}

/// The instant `secs` as a timestamp that `chrono` accepts, if it does
/// (`Utc.timestamp_opt(secs, 0).single()`).
pub fn utc_timestamp(secs: i64) -> (r: Option<i64>)
    ensures
        r == (if utc_timestamp_representable(secs) {
            Some(secs)
        } else {
            None
        }),
{
    if utc_timestamp_valid(secs) {
        Some(secs)
    } else {
        None
    }
}

} // verus!
