//! The monotonic clock. Readings depend on time, so nothing is claimed of
//! their values; callers decide from whatever they read.

use vstd::prelude::*;

verus! {

/// `std::time::Instant`, held opaquely.
#[verifier::external_type_specification]
#[verifier::external_body]
pub struct ExInstant(std::time::Instant);

/// `Instant::now`: the current instant.
#[verifier::external_body]
pub(crate) fn instant_now() -> std::time::Instant {
    std::time::Instant::now()
}

/// `Instant::elapsed`, converted to whole nanoseconds: time since `since`.
/// It depends on the clock, so no value is claimed.
#[verifier::external_body]
pub(crate) fn elapsed_nanos(since: &std::time::Instant) -> u128 {
    since.elapsed().as_nanos()
}

} // verus!
