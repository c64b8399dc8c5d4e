//! The wall clock that bounds a run. What it reads is not known to the proofs.

use vstd::prelude::*;
use web_time::Instant;

verus! {

/// `web_time::Instant`, a reading of the monotonic clock. It is declared so
/// that a reading can be kept and handed back; nothing of its value is
/// visible to the proofs.
#[verifier::external_type_specification]
#[verifier::external_body]
pub struct ExInstant(web_time::Instant);

/// Calls `web_time::Instant::now`, which reads the monotonic clock: that of
/// the standard library, or in a browser the performance clock of the page.
/// Nothing is claimed of the reading.
#[verifier::external_body]
pub(crate) fn now() -> (start: Instant) {
    Instant::now()
}

/// Calls `web_time::Instant::elapsed` and gives the time since `start` in
/// whole nanoseconds. Nothing is claimed of the number: it differs from one
/// call to the next.
#[verifier::external_body]
pub(crate) fn elapsed_nanos(start: &Instant) -> (nanos: u128) {
    start.elapsed().as_nanos()
}

} // verus!
