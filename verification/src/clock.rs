//! The wall clock, behind a single trusted wrapper.
//!
//! Everything that depends on the current time takes a millisecond timestamp
//! as an argument and is verified for every value of it; only this wrapper
//! actually reads the clock.

use vstd::prelude::*;

verus! {

/// Relies on chrono::Utc::now for the current wall-clock time, as
/// milliseconds since the Unix epoch. chrono itself requires a system
/// clock at or after the epoch, so the conversion to an unsigned count
/// cannot fail in practice; its fallback to zero only keeps the wrapper
/// total. Nothing is promised of the result: callers are verified for
/// every value it may take.
#[verifier::external_body]
pub fn now_millis() -> u64 {
    let ms: i64 = chrono::Utc::now().timestamp_millis();
    u64::try_from(ms).unwrap_or(0)
}

} // verus!
