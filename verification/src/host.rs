//! The machine's two ties to the outside world: wall-clock time (for the
//! 60 Hz timers) and a random byte source (for Cxkk). Nothing can be promised
//! of either result, so these wrappers carry no `ensures`; every caller in
//! the library states what holds of its own state whatever comes back.

use vstd::prelude::*;

verus! {

#[verifier::external_type_specification]
#[verifier::external_body]
pub struct ExInstant(std::time::Instant);

/// Relies on std::time::Instant::now: an opaque timestamp of this moment.
#[verifier::external_body]
pub(crate) fn now_instant() -> std::time::Instant {
    std::time::Instant::now()
}

/// Relies on std::time::Instant::elapsed: the wall-clock time since `t`,
/// converted to whole nanoseconds (clipped to u64, about 584 years).
#[verifier::external_body]
pub(crate) fn elapsed_nanos(t: &std::time::Instant) -> u64 {
    t.elapsed().as_nanos() as u64
}

/// Relies on rand::random: a byte from the thread-local generator.
#[verifier::external_body]
pub(crate) fn random_byte() -> u8 {
    rand::random::<u8>()
}

} // verus!
