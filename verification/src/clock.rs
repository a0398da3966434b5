//! Readings of the wall clock, taken through the `chrono` crate.
//!
//! Nothing can be promised about the current instant itself; the calendar
//! bounds below are the only facts callers rely on.

use vstd::prelude::*;

use chrono::Datelike;

verus! {

/// Relies on `chrono::Utc::now` and `DateTime::timestamp`: the current
/// instant as whole seconds since the Unix epoch.
#[verifier::external_body]
pub fn to_epoch() -> (r: i64) {
    chrono::Utc::now().timestamp()
}

/// Relies on `chrono::Utc::now` and `DateTime::format`: the current instant
/// rendered as a "%Y-%m-%dT%H:%M:%S" timestamp.
#[verifier::external_body]
pub fn now_iso() -> (r: String) {
    chrono::Utc::now().format("%Y-%m-%dT%H:%M:%S").to_string()
}

/// Relies on `chrono::Utc::now` and the `Datelike` accessors, which document
/// the month as lying in 1..=12 and the day of month in 1..=31.
#[verifier::external_body]
pub fn now_ymd() -> (r: (i32, u32, u32))
    ensures
        1 <= r.1 <= 12,
        1 <= r.2 <= 31,
{
    let now = chrono::Utc::now();
    (now.year(), now.month(), now.day())
}

} // verus!
