//! A timer that counts up, and one that counts down from a set span.
use crate::clock::{clock_elapsed, clock_now, instant_after, instant_plus};
use crate::convert::ToDuration;
use crate::duration::Duration;
use std::time::Instant;
use vstd::prelude::*;

verus! {

/// What is left of a span of `target` nanoseconds once `elapsed` nanoseconds
/// have passed: `None` once the span has run out.
pub open spec fn remaining(target: nat, elapsed: nat) -> Option<nat> {
    if elapsed >= target {
        None
    } else {
        Some((target - elapsed) as nat)
    }
}

/// A simple timer that knows how long since it started.
#[derive(Clone, Copy, Debug, PartialEq, Eq, PartialOrd, Ord, Hash)]
pub struct Timer {
    start: Instant,
}

impl Timer {
    /// The instant at which the timer was started.
    pub closed spec fn started(self) -> Instant {
        self.start
    }

    /// Creates a new `Timer`, started now.
    pub fn start() -> Timer {
        Timer { start: clock_now() }
    }

    /// Restarts the `Timer` from now.
    pub fn reset(&mut self) {
        self.start = clock_now();
    }

    /// The time since the timer was started.
    pub fn duration(self) -> (r: Duration)
        ensures
            r.wf(),
    {
        clock_elapsed(&self.start)
    }

    /// The instant at which the timer was started.
    pub fn started_at(self) -> (r: Instant)
        ensures
            r == self.started(),
    {
        self.start
    }
}

impl Default for Timer {
    fn default() -> Self {
        Timer::start()
    }
}

/// A timer that counts down and knows when a set span has elapsed.
#[derive(Clone, Copy, Debug, PartialEq, Eq, PartialOrd, Ord, Hash)]
pub struct EggTimer {
    timer: Timer,
    duration: Duration,
}

impl EggTimer {
    /// The set span is a well-formed `Duration`.
    pub closed spec fn wf(self) -> bool {
        self.duration.wf()
    }

    /// The span the timer was set with, in nanoseconds.
    pub closed spec fn target(self) -> nat {
        self.duration@
    }

    /// The instant at which the timer was started.
    pub closed spec fn started(self) -> Instant {
        self.timer.start
    }

    /// Creates a new `EggTimer`, started now and set to `time`.
    pub fn set<D: ToDuration>(time: D) -> (r: EggTimer)
        requires
            time.fits_duration(),
        ensures
            r.wf(),
            r.target() == time.span_nanos(),
    {
        EggTimer { timer: Timer::start(), duration: time.to_duration() }
    }

    /// Restarts the `EggTimer` from now, with the same span.
    pub fn reset(&mut self)
        ensures
            final(self).target() == old(self).target(),
            final(self).wf() == old(self).wf(),
    {
        self.timer = Timer::start();
    }

    /// What is left of the span once `elapsed` has passed since the start:
    /// `None` once `elapsed` reaches the span.
    pub fn left_after(&self, elapsed: Duration) -> (r: Option<Duration>)
        requires
            self.wf(),
            elapsed.wf(),
        ensures
            r.is_some() == remaining(self.target(), elapsed@).is_some(),
            r.is_some() ==> r.unwrap().wf() && r.unwrap()@ == remaining(
                self.target(),
                elapsed@,
            ).unwrap(),
    {
        if elapsed.at_least(&self.duration) {
            None
        } else {
            self.duration.checked_sub(&elapsed)
        }
    }

    /// Whether the span has run out once `elapsed` has passed since the start.
    pub fn ready_after(&self, elapsed: Duration) -> (r: bool)
        requires
            self.wf(),
            elapsed.wf(),
        ensures
            r == remaining(self.target(), elapsed@).is_none(),
    {
        elapsed.at_least(&self.duration)
    }

    /// The time left, or `None` once the span has run out.
    pub fn duration_left(&self) -> (r: Option<Duration>)
        requires
            self.wf(),
        ensures
            self.target() == 0 ==> r.is_none(),
            r.is_some() ==> r.unwrap().wf() && 0 < r.unwrap()@ <= self.target(),
    {
        let elapsed = self.timer.duration();
        self.left_after(elapsed)
    }

    /// Whether the set span has elapsed.
    pub fn is_ready(self) -> (r: bool)
        requires
            self.wf(),
        ensures
            self.target() == 0 ==> r,
    {
        let elapsed = self.timer.duration();
        self.ready_after(elapsed)
    }

    /// The span the timer was set with.
    pub fn max_duration(&self) -> (r: Duration)
        requires
            self.wf(),
        ensures
            r.wf(),
            r@ == self.target(),
    {
        self.duration
    }

    /// The time since the timer was started.
    pub fn duration(&self) -> (r: Duration)
        ensures
            r.wf(),
    {
        self.timer.duration()
    }

    /// The instant at which the timer was started.
    pub fn started_at(&self) -> (r: Instant)
        ensures
            r == self.started(),
    {
        self.timer.started_at()
    }

    /// The instant at which the timer will end or did end, or `None` where the
    /// platform cannot represent it.
    pub fn ends_at(&self) -> (r: Option<Instant>)
        requires
            self.wf(),
        ensures
            r == instant_plus(self.started(), self.target()),
    {
        instant_after(&self.timer.start, &self.duration)
    }
}

/// Once a span has run out it stays run out as more time passes.
pub proof fn lemma_ready_stays_ready(target: nat, earlier: nat, later: nat)
    requires
        earlier <= later,
        remaining(target, earlier).is_none(),
    ensures
        remaining(target, later).is_none(),
{
}

/// A span longer than zero has not run out at its start, and has run out once
/// at least that span has passed; time is left exactly while it has not run out.
pub proof fn lemma_ready_exactly_after_target(target: nat, elapsed: nat)
    ensures
        target > 0 ==> remaining(target, 0) == Some(target),
        elapsed >= target ==> remaining(target, elapsed).is_none(),
        elapsed < target ==> remaining(target, elapsed) == Some((target - elapsed) as nat),
{
}

/// A span of zero has run out from the start.
pub proof fn lemma_zero_span_ready(elapsed: nat)
    ensures
        remaining(0, elapsed).is_none(),
{
}

} // verus!
