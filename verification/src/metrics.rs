//! The small timing helper of the observability surface; the heavier
//! collectors live with the application shell.

use vstd::prelude::*;

verus! {

/// Declares the standard library's monotonic clock instant so it can stand
/// in a field; the value itself is opaque.
#[verifier::external_type_specification]
#[verifier::external_body]
pub struct ExInstant(std::time::Instant);

/// Relies on std::time::Instant::clone: an instant copies as itself.
pub assume_specification[ <std::time::Instant as Clone>::clone ](
    v: &std::time::Instant,
) -> (r: std::time::Instant)
    ensures
        r == *v,
;

/// Relies on std::time::Instant::now for an opaque monotonic timestamp;
/// nothing is promised of the value.
#[verifier::external_body]
fn instant_now() -> std::time::Instant {
    std::time::Instant::now()
}

/// Remembers when a named operation started, so its latency can be reported
/// when it finishes.
#[derive(Debug, Clone)]
pub struct LatencyTracker {
    pub start_time: std::time::Instant,
    pub operation: String,
}

impl LatencyTracker {
    /// Start timing the named operation now.
    pub fn new(operation: String) -> (r: LatencyTracker)
        ensures
            r.operation == operation,
    {
        LatencyTracker { start_time: instant_now(), operation }
    }

    /// The operation this tracker times.
    pub fn operation_name(&self) -> (r: &str)
        ensures
            r@ == self.operation@,
    {
        self.operation.as_str()
    }
}

} // verus!
