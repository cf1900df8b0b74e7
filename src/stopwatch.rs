//! A timer that counts up and can be paused and resumed.
use crate::clock::{clock_elapsed, clock_now};
use crate::duration::{max_nanos, Duration};
use std::time::Instant;
use vstd::prelude::*;

verus! {

/// `a + b` nanoseconds, held at the largest span a `Duration` can hold.
pub open spec fn capped_sum(a: nat, b: nat) -> nat {
    if a + b <= max_nanos() {
        a + b
    } else {
        max_nanos()
    }
}

/// The total of a stopwatch with `banked` nanoseconds from earlier runs, when
/// `live` nanoseconds have passed since it was last resumed.
pub open spec fn total_time(paused: bool, banked: nat, live: nat) -> nat {
    if paused {
        banked
    } else {
        capped_sum(banked, live)
    }
}

/// A timer that can be paused and resumed; the time while paused is not counted.
#[derive(Clone, Copy, Debug, PartialEq, Eq, PartialOrd, Ord, Hash)]
pub struct Stopwatch {
    last_start: Instant,
    prev_dur: Duration,
    paused: bool,
}

impl Stopwatch {
    /// The banked time is a well-formed `Duration`.
    pub closed spec fn wf(self) -> bool {
        self.prev_dur.wf()
    }

    /// Whether the stopwatch is paused.
    pub closed spec fn is_paused(self) -> bool {
        self.paused
    }

    /// The time counted in runs that have ended, in nanoseconds.
    pub closed spec fn banked(self) -> nat {
        self.prev_dur@
    }

    /// The instant at which the current run began.
    pub closed spec fn resumed(self) -> Instant {
        self.last_start
    }

    /// Creates a new `Stopwatch` that counts from now.
    pub fn start() -> (r: Stopwatch)
        ensures
            r.wf(),
            !r.is_paused(),
            r.banked() == 0,
    {
        Stopwatch { last_start: clock_now(), prev_dur: Duration::zero(), paused: false }
    }

    /// Creates a new `Stopwatch` that starts paused.
    pub fn start_paused() -> (r: Stopwatch)
        ensures
            r.wf(),
            r.is_paused(),
            r.banked() == 0,
    {
        Stopwatch { last_start: clock_now(), prev_dur: Duration::zero(), paused: true }
    }

    /// Sets the counted time back to zero and begins a new run from now,
    /// without pausing or resuming.
    pub fn reset(&mut self)
        ensures
            final(self).wf(),
            final(self).banked() == 0,
            final(self).is_paused() == old(self).is_paused(),
    {
        self.last_start = clock_now();
        self.prev_dur = Duration::zero();
    }

    /// The total counted time when `live` has passed since the current run began.
    pub fn total_after(&self, live: Duration) -> (r: Duration)
        requires
            self.wf(),
            live.wf(),
        ensures
            r.wf(),
            r@ == total_time(self.is_paused(), self.banked(), live@),
    {
        if self.paused {
            self.prev_dur
        } else {
            self.prev_dur.saturating_add(&live)
        }
    }

    /// Pauses, where `live` has passed since the current run began: the run's
    /// time is banked. Does nothing if already paused.
    pub fn pause_after(&mut self, live: Duration)
        requires
            old(self).wf(),
            live.wf(),
        ensures
            final(self).wf(),
            final(self).is_paused(),
            final(self).banked() == total_time(old(self).is_paused(), old(self).banked(), live@),
            final(self).resumed() == old(self).resumed(),
    {
        if !self.paused {
            self.prev_dur = self.prev_dur.saturating_add(&live);
            self.paused = true;
        }
    }

    /// Resumes with a new run beginning at `now`. Does nothing if already running.
    pub fn resume_from(&mut self, now: Instant)
        ensures
            !final(self).is_paused(),
            final(self).banked() == old(self).banked(),
            final(self).wf() == old(self).wf(),
            final(self).resumed() == if old(self).is_paused() {
                now
            } else {
                old(self).resumed()
            },
    {
        if self.paused {
            self.last_start = now;
            self.paused = false;
        }
    }

    /// The total counted time.
    pub fn duration(&self) -> (r: Duration)
        requires
            self.wf(),
        ensures
            r.wf(),
            self.is_paused() ==> r@ == self.banked(),
            r@ >= self.banked(),
    {
        if self.paused {
            self.prev_dur
        } else {
            let live = clock_elapsed(&self.last_start);
            proof {
                self.prev_dur.lemma_bounded();
            }
            self.total_after(live)
        }
    }

    /// Pauses, banking the current run. Does nothing if already paused.
    pub fn pause(&mut self)
        requires
            old(self).wf(),
        ensures
            final(self).wf(),
            final(self).is_paused(),
            final(self).resumed() == old(self).resumed(),
            final(self).banked() >= old(self).banked(),
            old(self).is_paused() ==> *final(self) == *old(self),
    {
        if !self.paused {
            let live = clock_elapsed(&self.last_start);
            proof {
                self.prev_dur.lemma_bounded();
            }
            self.pause_after(live);
        }
    }

    /// Resumes with a new run from now. Does nothing if already running.
    pub fn resume(&mut self)
        ensures
            !final(self).is_paused(),
            final(self).banked() == old(self).banked(),
            final(self).wf() == old(self).wf(),
            !old(self).is_paused() ==> *final(self) == *old(self),
    {
        if self.paused {
            let now = clock_now();
            self.resume_from(now);
        }
    }

    /// Pauses a running stopwatch, or resumes a paused one.
    pub fn toggle(&mut self)
        requires
            old(self).wf(),
        ensures
            final(self).wf(),
            final(self).is_paused() == !old(self).is_paused(),
            old(self).is_paused() ==> final(self).banked() == old(self).banked(),
            !old(self).is_paused() ==> final(self).banked() >= old(self).banked()
                && final(self).resumed() == old(self).resumed(),
    {
        if self.paused {
            self.resume();
        } else {
            self.pause();
        }
    }

    /// The instant at which the current run began.
    pub fn started_at(&self) -> (r: Instant)
        ensures
            r == self.resumed(),
    {
        self.last_start
    }
}

impl Default for Stopwatch {
    fn default() -> (r: Self)
        ensures
            r.wf(),
            !r.is_paused(),
            r.banked() == 0,
    {
        Stopwatch::start()
    }
}

/// While paused the total does not move, however much time passes.
pub proof fn lemma_paused_total_fixed(banked: nat, live1: nat, live2: nat)
    ensures
        total_time(true, banked, live1) == total_time(true, banked, live2),
        total_time(true, banked, live1) == banked,
{
}

/// A stopwatch started paused counts zero until it is resumed.
pub proof fn lemma_started_paused_counts_zero(live: nat)
    ensures
        total_time(true, 0, live) == 0,
{
}

/// Pausing twice does what pausing once does: the second pause finds the
/// stopwatch paused and banks nothing.
pub proof fn lemma_pause_idempotent(paused: bool, banked: nat, first: nat, second: nat)
    ensures
        total_time(true, total_time(paused, banked, first), second) == total_time(
            paused,
            banked,
            first,
        ),
{
}

/// A run of `t` nanoseconds between a resume and a pause adds exactly `t` to
/// the banked time, unless the sum passes the largest span.
pub proof fn lemma_run_adds_its_length(banked: nat, t: nat)
    requires
        banked + t <= max_nanos(),
    ensures
        total_time(false, banked, t) == banked + t,
{
}

/// A running stopwatch's total never falls as time passes.
pub proof fn lemma_running_total_monotone(banked: nat, live1: nat, live2: nat)
    requires
        live1 <= live2,
    ensures
        total_time(false, banked, live1) <= total_time(false, banked, live2),
{
}

} // verus!
