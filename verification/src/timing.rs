use std::time::Instant;
use vstd::prelude::*;

verus! {

/// std's monotonic clock reading, opaque to verification.
#[verifier::external_type_specification]
#[verifier::external_body]
pub struct ExInstant(Instant);

/// Relies on std::time::Instant::now: a reading of the monotonic clock.
/// Nothing is promised of the value; time is not a function of the program's
/// state.
#[verifier::external_body]
pub(crate) fn instant_now() -> Instant {
    Instant::now()
}

/// Relies on std::time::Instant::elapsed: the time since `start`, converted
/// to whole nanoseconds (truncated into a u64 by the cast). Nothing is
/// promised of the value.
#[verifier::external_body]
pub(crate) fn elapsed_nanos(start: &Instant) -> u64 {
    start.elapsed().as_nanos() as u64
}

} // verus!
