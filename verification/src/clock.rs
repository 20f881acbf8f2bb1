//! The time of day.

use vstd::prelude::*;

use crate::db::Timestamp;

verus! {

/// Whether a moment lies at or after 1970-01-01 00:00:00 UTC and inside a second.
pub open spec fn is_moment(t: Timestamp) -> bool {
    0 <= t.secs && t.nanos < 1_000_000_000
}

/// `chrono::Utc::now`: the machine's clock, taken apart into whole seconds since
/// 1970 and the nanoseconds on top. Nothing is claimed of how two readings
/// relate. `chrono` panics where the clock stands before 1970 or past the years
/// that it can count, so the result always lies after 1970.
#[verifier::external_body]
pub(crate) fn utc_now() -> (now: Timestamp)
    ensures
        is_moment(now),
{
    let now: chrono::DateTime<chrono::Utc> = chrono::Utc::now();
    Timestamp { secs: now.timestamp(), nanos: now.timestamp_subsec_nanos() }
}

/// Milliseconds since 1970, given what reading the system clock came to: zero
/// where the clock stands before 1970, and modulo 2^64 otherwise.
pub fn now_ms(since_epoch: Option<u128>) -> (ms: u64)
    ensures
        ms == match since_epoch {
            Some(millis) => (millis % 0x1_0000_0000_0000_0000) as int,
            None => 0,
        },
{
    match since_epoch {
        Some(millis) => {
            let low: u128 = millis % 0x1_0000_0000_0000_0000;
            low as u64
        },
        None => 0,
    }
}

} // verus!
