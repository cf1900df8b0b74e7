//! The monotonic clock of the host platform.
use crate::duration::Duration;
use std::time::Instant;
use vstd::prelude::*;

verus! {

#[verifier::external_type_specification]
#[verifier::external_body]
pub struct ExInstant(std::time::Instant);

/// Relies on `std::time::Instant::now`: a reading of the monotonic clock.
#[verifier::external_body]
pub(crate) fn clock_now() -> Instant {
    Instant::now()
}

/// Relies on `std::time::Instant::elapsed`: the time since `start` (zero if
/// `start` lies in the future), as whole seconds and nanoseconds below one second.
#[verifier::external_body]
pub(crate) fn clock_elapsed(start: &Instant) -> (r: Duration)
    ensures
        r.wf(),
{
    let d = start.elapsed();
    Duration { secs: d.as_secs(), nanos: d.subsec_nanos() }
}

/// The instant `span` nanoseconds after `start`, or `None` where the platform
/// cannot represent it.
pub uninterp spec fn instant_plus(start: Instant, span: nat) -> Option<Instant>;

/// Relies on `std::time::Instant::checked_add` (with the span built by
/// `std::time::Duration::new`, which cannot carry since the sub-second part is
/// below one second): the instant `d` after `start`, or `None` where the
/// platform cannot represent it.
#[verifier::external_body]
pub(crate) fn instant_after(start: &Instant, d: &Duration) -> (r: Option<Instant>)
    requires
        d.wf(),
    ensures
        r == instant_plus(*start, d@),
{
    start.checked_add(std::time::Duration::new(d.secs, d.nanos))
}

} // verus!
