//! The wall clock, read through `chrono`.

use vstd::prelude::*;

verus! {

/// Calls `chrono::Utc::now` and `DateTime::timestamp` on what it gives: the
/// seconds since 1970-01-01 00:00:00 UTC on the wall clock. The value
/// depends on the clock alone, so nothing is claimed of it. `Utc::now`
/// panics where the clock shows a date that `chrono` cannot hold and, where
/// it reads the system clock rather than asking JavaScript on a wasm32
/// host, also where that clock stands before 1970.
#[verifier::external_body]
pub(crate) fn unix_seconds() -> (seconds: i64) {
    chrono::Utc::now().timestamp()
}

/// Calls `chrono::Utc::now` and `DateTime::timestamp_millis` on what it
/// gives: the milliseconds since 1970-01-01 00:00:00 UTC on the wall clock.
/// The value depends on the clock alone, so nothing is claimed of it; a
/// later call may give less than an earlier one where the clock was set back
/// in between. `Utc::now` panics as said of `unix_seconds`.
#[verifier::external_body]
pub(crate) fn unix_millis() -> (millis: i64) {
    chrono::Utc::now().timestamp_millis()
}

} // verus!
