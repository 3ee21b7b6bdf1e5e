//! The one place the library reads the wall clock. Everything that depends
//! on time is verified against an explicit `now_ms` argument; these wrappers
//! only supply that argument.

use vstd::prelude::*;

verus! {

/// Milliseconds in one minute.
pub const MINUTE_MS: u64 = 60000;

/// Milliseconds in one UTC day.
pub const DAY_MS: u64 = 86400000;

/// The UTC calendar day that the instant `now_ms` (milliseconds since the
/// Unix epoch) falls on: two instants compare equal here exactly when
/// they fall on the same UTC date.
pub open spec fn spec_day_of(now_ms: u64) -> u64 {
    (now_ms / DAY_MS) as u64
}

/// The UTC day number of an instant.
pub fn day_of(now_ms: u64) -> (d: u64)
    ensures
        d == spec_day_of(now_ms),
{
    now_ms / DAY_MS
}

/// Relies on `chrono::Utc::now`: the current UTC time, here reduced to
/// milliseconds since the Unix epoch (clamped to zero for pre-epoch clocks).
/// Nothing is promised of the value; callers hand it to functions that are
/// verified for every value.
#[verifier::external_body]
pub fn now_millis() -> (now_ms: u64) {
    let ms: i64 = chrono::Utc::now().timestamp_millis();
    u64::try_from(ms).unwrap_or(0)
}

} // verus!
