//! The wall clock and the monotonic clock.
use vstd::prelude::*;

verus! {

/// A point of the monotonic clock, in nanoseconds since some start.
#[derive(Clone, Copy, Debug, PartialEq, Eq, Structural)]
pub struct Moment {
    pub nanos: u128,
}

/// Calls `chrono::Utc::now` and `timestamp_millis` on what it gives: the
/// current time in milliseconds since the epoch.  Trusted: nothing is claimed
/// of the result, which depends on the machine's clock.  `now` panics if that
/// clock stands before the epoch.
#[verifier::external_body]
pub(crate) fn current_time_ms() -> (now_ms: i64) {
    chrono::Utc::now().timestamp_millis()
}

} // verus!
