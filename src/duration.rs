use vstd::prelude::*;

verus! {

/// The number of nanoseconds in one second.
pub const NANOS_PER_SEC: u32 = 1_000_000_000;

/// A non-negative span of time: whole seconds and a sub-second part in nanoseconds.
#[derive(Clone, Copy, Debug, PartialEq, Eq, Structural, PartialOrd, Ord, Hash)]
pub struct Duration {
    pub(crate) secs: u64,
    pub(crate) nanos: u32,
}

/// The largest span a `Duration` can hold, in nanoseconds.
pub open spec fn max_nanos() -> nat {
    18_446_744_073_709_551_615nat * 1_000_000_000 + 999_999_999
}

impl View for Duration {
    type V = nat;

    /// The span in nanoseconds.
    closed spec fn view(&self) -> nat {
        self.secs as nat * 1_000_000_000 + self.nanos as nat
    }
}

impl Duration {
    /// The sub-second part is always below one second.
    pub closed spec fn wf(self) -> bool {
        self.nanos < NANOS_PER_SEC
    }

    /// Every span lies between zero and the largest one.
    pub proof fn lemma_bounded(self)
        requires
            self.wf(),
        ensures
            self@ <= max_nanos(),
    {
    }

    /// The zero-length span.
    pub fn zero() -> (r: Duration)
        ensures
            r.wf(),
            r@ == 0,
    {
        Duration { secs: 0, nanos: 0 }
    }

    /// A span of whole seconds.
    pub fn from_secs(secs: u64) -> (r: Duration)
        ensures
            r.wf(),
            r@ == secs * 1_000_000_000,
    {
        Duration { secs, nanos: 0 }
    }

    /// A span of `secs` seconds plus `nanos` nanoseconds; nanoseconds beyond
    /// one second carry into the seconds.
    pub fn new(secs: u64, nanos: u32) -> (r: Duration)
        requires
            secs as nat * 1_000_000_000 + nanos as nat <= max_nanos(),
        ensures
            r.wf(),
            r@ == secs as nat * 1_000_000_000 + nanos as nat,
    {
        let carry: u32 = nanos / NANOS_PER_SEC;
        let rest: u32 = nanos % NANOS_PER_SEC;
        assert(secs as nat + carry as nat <= u64::MAX) by (nonlinear_arith)
            requires
                secs as nat * 1_000_000_000 + nanos as nat <= max_nanos(),
                carry == nanos / 1_000_000_000u32,
        ;
        assert(nanos as nat == carry as nat * 1_000_000_000 + rest as nat) by (nonlinear_arith)
            requires
                carry == nanos / 1_000_000_000u32,
                rest == nanos % 1_000_000_000u32,
        ;
        Duration { secs: secs + carry as u64, nanos: rest }
    }

    /// The whole seconds of the span.
    pub fn as_secs(&self) -> (r: u64)
        requires
            self.wf(),
        ensures
            r == self@ / 1_000_000_000,
    {
        proof {
            assert((self.secs as nat * 1_000_000_000 + self.nanos as nat) / 1_000_000_000
                == self.secs as nat) by (nonlinear_arith)
                requires
                    self.nanos < 1_000_000_000,
            ;
        }
        self.secs
    }

    /// The part of the span below one second, in nanoseconds.
    pub fn subsec_nanos(&self) -> (r: u32)
        requires
            self.wf(),
        ensures
            r == self@ % 1_000_000_000,
            r < NANOS_PER_SEC,
    {
        proof {
            assert((self.secs as nat * 1_000_000_000 + self.nanos as nat) % 1_000_000_000
                == self.nanos as nat) by (nonlinear_arith)
                requires
                    self.nanos < 1_000_000_000,
            ;
        }
        self.nanos
    }

    /// Whether the span has length zero.
    pub fn is_zero(&self) -> (r: bool)
        requires
            self.wf(),
        ensures
            r == (self@ == 0),
    {
        self.secs == 0 && self.nanos == 0
    }

    /// Whether this span is at least as long as `other`.
    pub fn at_least(&self, other: &Duration) -> (r: bool)
        requires
            self.wf(),
            other.wf(),
        ensures
            r == (self@ >= other@),
    {
        proof {
            assert((self.secs > other.secs || (self.secs == other.secs && self.nanos
                >= other.nanos)) == (self@ >= other@)) by (nonlinear_arith)
                requires
                    self.nanos < 1_000_000_000,
                    other.nanos < 1_000_000_000,
            ;
        }
        self.secs > other.secs || (self.secs == other.secs && self.nanos >= other.nanos)
    }

    /// `self - other`, or `None` where `other` is longer than `self`.
    pub fn checked_sub(&self, other: &Duration) -> (r: Option<Duration>)
        requires
            self.wf(),
            other.wf(),
        ensures
            r.is_some() == (self@ >= other@),
            r.is_some() ==> r.unwrap().wf() && r.unwrap()@ == self@ - other@,
    {
        if !self.at_least(other) {
            None
        } else if self.nanos >= other.nanos {
            Some(Duration { secs: self.secs - other.secs, nanos: self.nanos - other.nanos })
        } else {
            assert(self.secs > other.secs) by (nonlinear_arith)
                requires
                    self.secs as nat * 1_000_000_000 + self.nanos as nat >= other.secs as nat
                        * 1_000_000_000 + other.nanos as nat,
                    self.nanos < other.nanos,
            ;
            let r = Duration {
                secs: self.secs - other.secs - 1,
                nanos: self.nanos + (NANOS_PER_SEC - other.nanos),
            };
            assert(r@ == self@ - other@) by (nonlinear_arith)
                requires
                    r.secs == self.secs - other.secs - 1,
                    r.nanos == self.nanos + (1_000_000_000 - other.nanos),
                    self.secs > other.secs,
            ;
            Some(r)
        }
    }

    /// `self + other`, or `None` where the sum is longer than the largest span.
    pub fn checked_add(&self, other: &Duration) -> (r: Option<Duration>)
        requires
            self.wf(),
            other.wf(),
        ensures
            r.is_some() == (self@ + other@ <= max_nanos()),
            r.is_some() ==> r.unwrap().wf() && r.unwrap()@ == self@ + other@,
    {
        let (nanos, carry): (u32, u64) = if self.nanos >= NANOS_PER_SEC - other.nanos {
            (self.nanos - (NANOS_PER_SEC - other.nanos), 1)
        } else {
            (self.nanos + other.nanos, 0)
        };
        assert(self@ + other@ == (self.secs as nat + other.secs as nat + carry as nat)
            * 1_000_000_000 + nanos as nat) by (nonlinear_arith)
            requires
                carry == 1 ==> nanos as nat + 1_000_000_000 == self.nanos as nat + other.nanos as nat,
                carry == 0 ==> nanos as nat == self.nanos as nat + other.nanos as nat,
                carry == 0 || carry == 1,
        ;
        if self.secs > u64::MAX - other.secs || (self.secs + other.secs == u64::MAX && carry
            == 1) {
            assert(self@ + other@ > max_nanos()) by (nonlinear_arith)
                requires
                    self@ + other@ == (self.secs as nat + other.secs as nat + carry as nat)
                        * 1_000_000_000 + nanos as nat,
                    self.secs as nat + other.secs as nat + carry as nat > u64::MAX,
            ;
            None
        } else {
            let r = Duration { secs: self.secs + other.secs + carry, nanos };
            assert(r@ <= max_nanos()) by (nonlinear_arith)
                requires
                    r.secs <= u64::MAX,
                    r.nanos < 1_000_000_000,
            ;
            Some(r)
        }
    }

    /// `self + other`, or the largest span where the sum would be longer.
    pub fn saturating_add(&self, other: &Duration) -> (r: Duration)
        requires
            self.wf(),
            other.wf(),
        ensures
            r.wf(),
            r@ == if self@ + other@ <= max_nanos() {
                self@ + other@
            } else {
                max_nanos()
            },
    {
        match self.checked_add(other) {
            Some(sum) => sum,
            None => Duration { secs: u64::MAX, nanos: NANOS_PER_SEC - 1 },
        }
    }
}

} // verus!
