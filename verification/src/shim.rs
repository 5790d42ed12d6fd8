//! Trusted declarations for the outside crates the library leans on.
//!
//! Everything in this module is believed, not proved: each item's contract
//! states only what the named outside function's source or documentation
//! plainly shows.

use vstd::prelude::*;

use crate::types::Timestamp;

verus! {

/// serde_json's dynamic JSON value, declared so that attribute blobs on
/// log entries can be carried through the library. The value is opaque
/// here: nothing is proved about what is inside it.
#[verifier::external_type_specification]
#[verifier::external_body]
pub struct ExValue(serde_json::Value);

/// Whether a string is a well-formed JSON document, as serde_json's
/// parser decides it.
pub uninterp spec fn json_parses(s: Seq<char>) -> bool;

/// The RFC 3339 rendering of a Unix instant (seconds and nanoseconds),
/// with the epoch standing in for instants outside chrono's range.
pub uninterp spec fn rfc3339_text(secs: int, nanos: int) -> Seq<char>;

/// Relies on chrono::Utc::now: reads the system clock as a Unix timestamp.
/// Its seconds are non-negative and its sub-second part is below 10^9,
/// because chrono builds the value from SystemTime's duration since the
/// epoch (and panics only if the system clock is set before the epoch).
#[verifier::external_body]
pub(crate) fn clock_now() -> (r: Timestamp)
    ensures
        0 <= r.secs,
        r.nanos < 1_000_000_000,
{
    let now = chrono::Utc::now();
    Timestamp { secs: now.timestamp(), nanos: now.timestamp_subsec_nanos() }
}

/// Relies on chrono's DateTime::from_timestamp and DateTime::to_rfc3339:
/// the rendering is a function of the two fields alone; an instant that
/// chrono cannot represent falls back to the epoch before rendering.
#[verifier::external_body]
pub(crate) fn format_rfc3339(ts: &Timestamp) -> (r: String)
    ensures
        r@ == rfc3339_text(ts.secs as int, ts.nanos as int),
{
    let dt = chrono::DateTime::from_timestamp(ts.secs, ts.nanos).unwrap_or_default();
    dt.to_rfc3339()
}

/// Relies on serde_json::from_str: parses a JSON document, succeeding
/// exactly when the text is well-formed JSON.
#[verifier::external_body]
pub(crate) fn parse_json(s: &str) -> (r: Result<serde_json::Value, ()>)
    ensures
        r is Ok <==> json_parses(s@),
{
    match serde_json::from_str::<serde_json::Value>(s) {
        Ok(v) => Ok(v),
        Err(_) => Err(()),
    }
}

/// Relies on serde_json::Value::Object and serde_json::Map::new: builds
/// the empty JSON object, the fallback for an attribute blob that does
/// not parse.
#[verifier::external_body]
pub(crate) fn empty_json_object() -> serde_json::Value {
    serde_json::Value::Object(serde_json::Map::new())
}

} // verus!
