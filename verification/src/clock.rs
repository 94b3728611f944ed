//! Freeze-record timestamps.
//!
//! A freeze record holds one line: a wall-clock timestamp rendered as
//! `YYYY-MM-DD/HH:MM:SS`.  Rendering and parsing are done by chrono; the
//! engine itself only compares the underlying seconds.

use vstd::prelude::*;

verus! {

/// The text a timestamp renders as under the freeze-record format.
pub uninterp spec fn time_string_of(t: int) -> Seq<char>;

/// The timestamp a freeze-record line parses back to, if it parses at all.
pub uninterp spec fn freeze_time_of(s: Seq<char>) -> Option<i64>;

/// Relies on chrono's `DateTime::from_timestamp` and strftime-style
/// formatting with `%Y-%m-%d/%T`: the rendering depends on the timestamp
/// alone, and parsing the rendering with the same format string gives the
/// timestamp back.
#[verifier::external_body]
pub fn format_timestamp(t: i64) -> (r: String)
    requires
        0 <= t < crate::MAX_TIME_SECONDS,
    ensures
        r@ == time_string_of(t as int),
        freeze_time_of(r@) == Some(t),
{
    let dt = chrono::DateTime::from_timestamp(t, 0).expect("timestamp in range");
    dt.naive_utc().format("%Y-%m-%d/%T").to_string()
}

/// Relies on chrono's `NaiveDateTime::parse_from_str` with `%Y-%m-%d/%T`:
/// the outcome depends on the input text alone.
#[verifier::external_body]
pub fn parse_freeze_line(s: &str) -> (r: Option<i64>)
    ensures
        r == freeze_time_of(s@),
{
    match chrono::NaiveDateTime::parse_from_str(s, "%Y-%m-%d/%T") {
        Ok(t) => Some(t.and_utc().timestamp()),
        Err(_) => None,
    }
}

} // verus!
