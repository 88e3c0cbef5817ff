//! The monotonic clock, read through std.
use vstd::prelude::*;
use std::time::Instant;

verus! {

#[verifier::external_type_specification]
#[verifier::external_body]
pub struct ExInstant(Instant);

/// The current instant.
/// Trusted: calls `std::time::Instant::now`; what it returns depends on the
/// time, so nothing is stated of it.
#[verifier::external_body]
pub(crate) fn instant_now() -> (r: Instant) {
    Instant::now()
}

/// Whole seconds elapsed since an instant.
/// Trusted: calls `Instant::elapsed` and `Duration::as_secs`; the result
/// depends on the time, so nothing is stated of it.
#[verifier::external_body]
pub(crate) fn elapsed_secs(t: &Instant) -> (r: u64) {
    t.elapsed().as_secs()
}

} // verus!
