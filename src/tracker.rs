//! Wall-clock measurement of request handling.
use vstd::prelude::*;
use std::time::{Duration, Instant};

verus! {

#[verifier::external_type_specification]
#[verifier::external_body]
pub struct ExInstant(Instant);

/// Relies on `std::time::Instant::now`: a reading of the monotonic clock.
#[verifier::external_body]
fn instant_now() -> Instant {
    Instant::now()
}

/// Relies on `std::time::Instant::elapsed`: the time since `start`.
#[verifier::external_body]
fn elapsed_since(start: &Instant) -> Duration {
    start.elapsed()
}

/// `Duration::as_millis`: whole milliseconds of a duration.
pub assume_specification[ Duration::as_millis ](d: &Duration) -> u128;

/// Measures the time since it was made.
pub struct PerformanceTracker {
    start_time: Instant,
}

/// Milliseconds as a `u64`, saturating at `u64::MAX`.
pub fn saturate_millis(ms: u128) -> (r: u64)
    ensures
        r == if ms > u64::MAX { u64::MAX as int } else { ms as int },
{
    if ms > u64::MAX as u128 {
        u64::MAX
    } else {
        ms as u64
    }
}

impl PerformanceTracker {
    /// Starts measuring now.
    pub fn new() -> PerformanceTracker {
        PerformanceTracker { start_time: instant_now() }
    }

    /// Whole milliseconds since the tracker was made.
    pub fn elapsed_ms(&self) -> u64 {
        let d = elapsed_since(&self.start_time);
        saturate_millis(d.as_millis())
    }
}

impl Default for PerformanceTracker {
    fn default() -> PerformanceTracker {
        PerformanceTracker::new()
    }
}

} // verus!
