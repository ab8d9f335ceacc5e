//! Wall-clock time for the statistics of a run. Nothing is claimed of what
//! the clock shows.
use vstd::prelude::*;

verus! {

/// A moment on the clock of the standard library, which is carried through
/// and never looked into.
#[verifier::external_type_specification]
#[verifier::external_body]
pub struct ExInstant(std::time::Instant);

/// `Duration::clone`: a copy of a duration is that duration.
pub assume_specification[ <core::time::Duration as Clone>::clone ](
    d: &core::time::Duration,
) -> (r: core::time::Duration)
    ensures
        r == *d,
;

/// The present moment, from `Instant::now`.
#[verifier::external_body]
pub(crate) fn now() -> std::time::Instant {
    std::time::Instant::now()
}

/// The time that has passed since `start`, from `Instant::elapsed`.
#[verifier::external_body]
pub(crate) fn elapsed_since(start: &std::time::Instant) -> core::time::Duration {
    start.elapsed()
}

/// The duration of no time, `Duration::ZERO`.
#[verifier::external_body]
pub(crate) fn no_time() -> core::time::Duration {
    core::time::Duration::ZERO
}

} // verus!
