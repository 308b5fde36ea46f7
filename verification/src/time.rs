use vstd::prelude::*;

verus! {

/// Number of nanoseconds in one second.
pub const NANOS_PER_SEC: u32 = 1_000_000_000;

/// The largest span a `Duration` can hold, in nanoseconds.
pub open spec fn max_nanos() -> nat {
    ((u64::MAX as nat) * (NANOS_PER_SEC as nat) + (NANOS_PER_SEC as nat) - 1) as nat
}

/// A span of time with nanosecond precision: whole seconds plus the
/// nanoseconds of the last, incomplete second.
///
/// Its view is the whole span in nanoseconds.
#[derive(Clone, Copy, Debug, PartialEq, Eq, Structural)]
pub struct Duration {
    secs: u64,
    nanos: u32,
}

/// The seconds of a sum decide whether it fits: `secs` is the sum of the
/// seconds with the carry of the nanoseconds.
spec fn b_sum_fits(s1: u64, n1: u32, s2: u64, n2: u32, carry: u64, secs: u128) -> bool {
    (secs <= u64::MAX) == ((s1 as nat) * (NANOS_PER_SEC as nat) + (n1 as nat) + (s2 as nat) * (
    NANOS_PER_SEC as nat) + (n2 as nat) <= max_nanos())
}

impl View for Duration {
    type V = nat;

    /// The span in nanoseconds.
    open spec fn view(&self) -> nat {
        self.spec_nanos()
    }
}

impl Duration {
    #[verifier::type_invariant]
    spec fn well_formed(self) -> bool {
        self.nanos < NANOS_PER_SEC
    }

    /// The whole span in nanoseconds.
    pub closed spec fn spec_nanos(self) -> nat {
        (self.secs as nat) * (NANOS_PER_SEC as nat) + (self.nanos as nat)
    }

    /// Builds the span `secs` seconds plus `nanos` nanoseconds; nanoseconds
    /// beyond one second carry into the seconds.
    pub fn new(secs: u64, nanos: u32) -> (d: Duration)
        requires
            secs + nanos / NANOS_PER_SEC <= u64::MAX,
        ensures
            d.spec_nanos() == secs * (NANOS_PER_SEC as nat) + nanos,
    {
        let extra: u32 = nanos / NANOS_PER_SEC;
        let rest: u32 = nanos % NANOS_PER_SEC;
        Duration { secs: secs + extra as u64, nanos: rest }
    }

    /// The empty span.
    pub fn zero() -> (d: Duration)
        ensures
            d.spec_nanos() == 0,
    {
        Duration { secs: 0, nanos: 0 }
    }

    /// Builds the span of `millis` milliseconds.
    pub fn from_millis(millis: u64) -> (d: Duration)
        ensures
            d.spec_nanos() == millis * 1_000_000,
    {
        let secs: u64 = millis / 1000;
        let rest: u64 = millis % 1000;
        let nanos: u32 = (rest * 1_000_000) as u32;
        Duration { secs, nanos }
    }

    /// Whole seconds in the span.
    pub fn as_secs(&self) -> (s: u64)
        ensures
            s == self.spec_nanos() / (NANOS_PER_SEC as nat),
    {
        proof {
            use_type_invariant(self);
        }
        self.secs
    }

    /// Nanoseconds of the last, incomplete second of the span.
    pub fn subsec_nanos(&self) -> (n: u32)
        ensures
            n == self.spec_nanos() % (NANOS_PER_SEC as nat),
    {
        proof {
            use_type_invariant(self);
        }
        self.nanos
    }

    /// The sum of two spans; the sum must fit in a `Duration`.
    pub fn add(self, other: Duration) -> (d: Duration)
        requires
            self.spec_nanos() + other.spec_nanos() <= max_nanos(),
        ensures
            d.spec_nanos() == self.spec_nanos() + other.spec_nanos(),
    {
        proof {
            use_type_invariant(self);
            use_type_invariant(other);
        }
        let mut nanos: u32 = self.nanos + other.nanos;
        let mut carry: u64 = 0;
        if nanos >= NANOS_PER_SEC {
            nanos = nanos - NANOS_PER_SEC;
            carry = 1;
        }
        assert(self.secs + other.secs + carry <= u64::MAX) by (nonlinear_arith)
            requires
                self.nanos < NANOS_PER_SEC,
                other.nanos < NANOS_PER_SEC,
                carry == 1 <==> self.nanos + other.nanos >= NANOS_PER_SEC,
                carry == 0 || carry == 1,
                (self.secs as nat) * (NANOS_PER_SEC as nat) + (self.nanos as nat) + (
                other.secs as nat) * (NANOS_PER_SEC as nat) + (other.nanos as nat) <= (
                u64::MAX as nat) * (NANOS_PER_SEC as nat) + (NANOS_PER_SEC as nat) - 1,
        ;
        Duration { secs: self.secs + other.secs + carry, nanos }
    }

    /// Whether the sum of the two spans fits in a `Duration`.
    pub fn fits_sum(&self, other: &Duration) -> (b: bool)
        ensures
            b == (self.spec_nanos() + other.spec_nanos() <= max_nanos()),
    {
        proof {
            use_type_invariant(self);
            use_type_invariant(other);
        }
        let carry: u64 = if self.nanos + other.nanos >= NANOS_PER_SEC {
            1
        } else {
            0
        };
        let secs: u128 = self.secs as u128 + other.secs as u128 + carry as u128;
        assert(b_sum_fits(self.secs, self.nanos, other.secs, other.nanos, carry, secs)) by (nonlinear_arith)
            requires
                self.nanos < NANOS_PER_SEC,
                other.nanos < NANOS_PER_SEC,
                carry == 1 <==> self.nanos + other.nanos >= NANOS_PER_SEC,
                carry == 0 || carry == 1,
                secs == self.secs + other.secs + carry,
        ;
        secs <= u64::MAX as u128
    }

    /// The difference of two spans; `other` must not be longer than `self`.
    pub fn sub(self, other: Duration) -> (d: Duration)
        requires
            other.spec_nanos() <= self.spec_nanos(),
        ensures
            d.spec_nanos() == self.spec_nanos() - other.spec_nanos(),
    {
        proof {
            use_type_invariant(self);
            use_type_invariant(other);
        }
        let mut borrow: u64 = 0;
        let nanos: u32;
        if self.nanos >= other.nanos {
            nanos = self.nanos - other.nanos;
        } else {
            nanos = self.nanos + (NANOS_PER_SEC - other.nanos);
            borrow = 1;
        }
        assert(other.secs + borrow <= self.secs) by (nonlinear_arith)
            requires
                self.nanos < NANOS_PER_SEC,
                other.nanos < NANOS_PER_SEC,
                borrow == 1 <==> self.nanos < other.nanos,
                borrow == 0 || borrow == 1,
                (other.secs as nat) * (NANOS_PER_SEC as nat) + (other.nanos as nat) <= (
                self.secs as nat) * (NANOS_PER_SEC as nat) + (self.nanos as nat),
        ;
        Duration { secs: self.secs - other.secs - borrow, nanos }
    }

    /// Whether `self` is strictly longer than `other`.
    pub fn gt(&self, other: &Duration) -> (b: bool)
        ensures
            b == (self.spec_nanos() > other.spec_nanos()),
    {
        proof {
            use_type_invariant(self);
            use_type_invariant(other);
        }
        self.secs > other.secs || (self.secs == other.secs && self.nanos > other.nanos)
    }
}

} // verus!
