//! The wall clock.

use vstd::prelude::*;
use web_time::Instant;

verus! {

/// A moment on the clock of `web_time`; nothing of it is visible to proofs.
#[verifier::external_type_specification]
#[verifier::external_body]
pub struct ExInstant(Instant);

/// `web_time::Instant::now`: the present moment. Nothing is claimed of it.
#[verifier::external_body]
pub(crate) fn now() -> (t: Instant) {
    Instant::now()
}

/// `web_time::Instant::elapsed`: the time that has passed since `start`, in
/// nanoseconds. Nothing is claimed of it.
#[verifier::external_body]
pub(crate) fn nanos_since(start: &Instant) -> (nanos: u128) {
    start.elapsed().as_nanos()
}

} // verus!
