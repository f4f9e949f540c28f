//! Wall-clock access for expect deadlines.

use vstd::prelude::*;

verus! {

/// A monotonic timestamp, opaque to the library.
#[verifier::external_type_specification]
#[verifier::external_body]
pub struct ExInstant(std::time::Instant);

/// Relies on `std::time::Instant::now`: an opaque monotonic timestamp.
/// What it holds depends on the clock, so nothing is promised of it.
#[verifier::external_body]
pub(crate) fn instant_now() -> std::time::Instant {
    std::time::Instant::now()
}

/// Relies on `std::time::Instant::elapsed`: the milliseconds since the
/// timestamp was taken, saturated at the largest value.  What it returns
/// depends on the clock, so nothing is promised of it.
#[verifier::external_body]
pub(crate) fn elapsed_millis(start: &std::time::Instant) -> u64 {
    u64::try_from(start.elapsed().as_millis()).unwrap_or(u64::MAX)
}

} // verus!
