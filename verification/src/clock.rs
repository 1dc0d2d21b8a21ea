//! Wall-clock readings and their presentation form.
//!
//! Record timestamps are carried through the library as seconds since the
//! Unix epoch; only presentation converts them to text.

use vstd::prelude::*;

verus! {

/// Timestamps this library renders as text lie between the epoch and the
/// last second of year 9999, the range RFC 3339 covers.
pub open spec fn renderable_timestamp(ts: int) -> bool {
    0 <= ts <= 253_402_300_799
}

/// Relies on chrono::Utc::now: the current wall-clock reading in seconds
/// since the Unix epoch. Nothing can be promised of a clock reading.
#[verifier::external_body]
pub fn now_timestamp() -> i64 {
    chrono::Utc::now().timestamp()
}

/// The RFC 3339 rendering of an epoch-seconds timestamp, as chrono's
/// formatter produces it. A function of the timestamp alone.
pub uninterp spec fn rfc3339_of(ts: int) -> Seq<char>;

/// Relies on chrono::DateTime::from_timestamp (documented to return a value
/// for every in-range second count) and chrono::DateTime::to_rfc3339, whose
/// output depends on the timestamp alone.
#[verifier::external_body]
pub fn rfc3339_string(ts: i64) -> (r: String)
    requires
        renderable_timestamp(ts as int),
    ensures
        r@ == rfc3339_of(ts as int),
{
    chrono::DateTime::from_timestamp(ts, 0).unwrap().to_rfc3339()
}

} // verus!
