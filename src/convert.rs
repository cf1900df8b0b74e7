//! Conversions between numbers of seconds and `Duration`.
use crate::duration::Duration;
use vstd::prelude::*;

verus! {

/// A value that stands for a span of time.
pub trait ToDuration {
    /// The span this value stands for, in nanoseconds.
    spec fn span_nanos(&self) -> nat;

    /// Whether a `Duration` can hold that span.
    spec fn fits_duration(&self) -> bool;

    /// Converts the value into a `Duration`.
    fn to_duration(&self) -> (r: Duration)
        requires
            self.fits_duration(),
        ensures
            r.wf(),
            r@ == self.span_nanos(),
    ;
}

impl ToDuration for Duration {
    open spec fn span_nanos(&self) -> nat {
        self@
    }

    open spec fn fits_duration(&self) -> bool {
        self.wf()
    }

    fn to_duration(&self) -> (r: Duration) {
        *self
    }
}

impl ToDuration for u8 {
    open spec fn span_nanos(&self) -> nat {
        *self as nat * 1_000_000_000
    }

    open spec fn fits_duration(&self) -> bool {
        true
    }

    fn to_duration(&self) -> (r: Duration) {
        Duration::from_secs(*self as u64)
    }
}

impl ToDuration for u16 {
    open spec fn span_nanos(&self) -> nat {
        *self as nat * 1_000_000_000
    }

    open spec fn fits_duration(&self) -> bool {
        true
    }

    fn to_duration(&self) -> (r: Duration) {
        Duration::from_secs(*self as u64)
    }
}

impl ToDuration for u32 {
    open spec fn span_nanos(&self) -> nat {
        *self as nat * 1_000_000_000
    }

    open spec fn fits_duration(&self) -> bool {
        true
    }

    fn to_duration(&self) -> (r: Duration) {
        Duration::from_secs(*self as u64)
    }
}

impl ToDuration for u64 {
    open spec fn span_nanos(&self) -> nat {
        *self as nat * 1_000_000_000
    }

    open spec fn fits_duration(&self) -> bool {
        true
    }

    fn to_duration(&self) -> (r: Duration) {
        Duration::from_secs(*self)
    }
}

impl ToDuration for u128 {
    open spec fn span_nanos(&self) -> nat {
        *self as nat * 1_000_000_000
    }

    open spec fn fits_duration(&self) -> bool {
        *self <= u64::MAX
    }

    fn to_duration(&self) -> (r: Duration) {
        Duration::from_secs(*self as u64)
    }
}

impl ToDuration for usize {
    open spec fn span_nanos(&self) -> nat {
        *self as nat * 1_000_000_000
    }

    open spec fn fits_duration(&self) -> bool {
        *self as nat <= u64::MAX
    }

    fn to_duration(&self) -> (r: Duration) {
        Duration::from_secs(*self as u64)
    }
}

/// A value that can be made from a span of time.
pub trait FromDuration: Sized {
    /// Whether a span of `nanos` nanoseconds can be represented.
    spec fn accepts(nanos: nat) -> bool;

    /// Whether `r` represents a span of `nanos` nanoseconds.
    spec fn represents(r: Self, nanos: nat) -> bool;

    /// Makes the value from a `Duration`.
    fn from_duration(duration: Duration) -> (r: Self)
        requires
            duration.wf(),
            Self::accepts(duration@),
        ensures
            Self::represents(r, duration@),
    ;
}

impl FromDuration for Duration {
    open spec fn accepts(nanos: nat) -> bool {
        true
    }

    open spec fn represents(r: Self, nanos: nat) -> bool {
        r.wf() && r@ == nanos
    }

    fn from_duration(duration: Duration) -> (r: Self) {
        duration
    }
}

impl FromDuration for u64 {
    open spec fn accepts(nanos: nat) -> bool {
        true
    }

    /// Whole seconds; the part below one second is dropped.
    open spec fn represents(r: Self, nanos: nat) -> bool {
        r == nanos / 1_000_000_000
    }

    fn from_duration(duration: Duration) -> (r: Self) {
        duration.as_secs()
    }
}

impl FromDuration for u128 {
    open spec fn accepts(nanos: nat) -> bool {
        true
    }

    /// Whole seconds; the part below one second is dropped.
    open spec fn represents(r: Self, nanos: nat) -> bool {
        r == nanos / 1_000_000_000
    }

    fn from_duration(duration: Duration) -> (r: Self) {
        duration.as_secs() as u128
    }
}

impl FromDuration for usize {
    open spec fn accepts(nanos: nat) -> bool {
        nanos / 1_000_000_000 <= usize::MAX
    }

    /// Whole seconds; the part below one second is dropped.
    open spec fn represents(r: Self, nanos: nat) -> bool {
        r == nanos / 1_000_000_000
    }

    fn from_duration(duration: Duration) -> (r: Self) {
        duration.as_secs() as usize
    }
}

} // verus!
