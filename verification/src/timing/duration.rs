//! Non-negative animation durations and start delays.

use vstd::prelude::*;

verus! {

/// The number of nanoseconds in one second.
pub const NANOS_PER_SEC: u128 = 1_000_000_000;

/// The largest representable length in nanoseconds: `u64::MAX` whole seconds
/// plus `999_999_999` nanoseconds, the range of a standard library duration.
pub const MAX_NANOS: u128 = 18_446_744_073_709_551_615_999_999_999;

/// A non-negative animation duration, counted in nanoseconds.
#[derive(Debug, Clone, Copy, PartialEq, Eq, PartialOrd, Ord, Hash, Default, Structural)]
pub struct Duration {
    nanos: u128,
}

/// A non-negative animation start delay, counted in nanoseconds.
#[derive(Debug, Clone, Copy, PartialEq, Eq, Default, Structural)]
pub struct Delay {
    nanos: u128,
}

impl Duration {
    /// The length of this duration in nanoseconds.
    pub closed spec fn spec_nanos(self) -> nat {
        self.nanos as nat
    }

    /// Every duration stays within the range of a standard library duration.
    #[verifier::type_invariant]
    pub open spec fn wf(self) -> bool {
        self.spec_nanos() <= MAX_NANOS
    }

    /// A duration of exactly `nanos` nanoseconds.
    pub closed spec fn spec_from_nanos(nanos: nat) -> Duration
        recommends
            nanos <= MAX_NANOS,
    {
        Duration { nanos: nanos as u128 }
    }

    /// Two durations are equal exactly when they have the same length.
    pub proof fn lemma_eq(a: Duration, b: Duration)
        ensures
            (a == b) <==> (a.spec_nanos() == b.spec_nanos()),
    {
    }

    /// Every length fits the 128-bit count it is stored in.
    pub proof fn lemma_nanos_bound(d: Duration)
        ensures
            d.spec_nanos() <= u128::MAX,
    {
    }

    /// A duration built from a length that fits 128 bits has that length.
    pub proof fn lemma_from_nanos_u128(nanos: nat)
        requires
            nanos <= u128::MAX,
        ensures
            Duration::spec_from_nanos(nanos).spec_nanos() == nanos,
    {
    }

    /// A duration built from a length has that length.
    pub proof fn lemma_from_nanos(nanos: nat)
        requires
            nanos <= MAX_NANOS,
        ensures
            Duration::spec_from_nanos(nanos).spec_nanos() == nanos,
            Duration::spec_from_nanos(nanos).wf(),
    {
    }

    /// A zero-length duration.
    pub fn zero() -> (r: Self)
        ensures
            r.spec_nanos() == 0,
            r.wf(),
    {
        Duration { nanos: 0 }
    }

    /// Creates a duration from whole seconds and additional nanoseconds.
    ///
    /// Nanoseconds beyond one second carry into the seconds, as with a
    /// standard library duration.
    pub fn new(secs: u64, nanos: u32) -> (r: Self)
        requires
            secs * NANOS_PER_SEC + nanos <= MAX_NANOS,
        ensures
            r.spec_nanos() == secs * NANOS_PER_SEC + nanos,
            r.wf(),
    {
        let total: u128 = (secs as u128) * NANOS_PER_SEC + (nanos as u128);
        Duration { nanos: total }
    }

    /// Creates a duration from a whole number of nanoseconds.
    pub fn from_nanos(nanos: u64) -> (r: Self)
        ensures
            r.spec_nanos() == nanos,
            r.wf(),
    {
        Duration { nanos: nanos as u128 }
    }

    /// Creates a duration of `nanos` nanoseconds, which must be in range.
    pub(crate) fn from_nanos_u128(nanos: u128) -> (r: Self)
        requires
            nanos <= MAX_NANOS,
        ensures
            r.spec_nanos() == nanos,
    {
        Duration { nanos }
    }

    /// Creates a duration from a whole number of milliseconds.
    pub fn from_millis_u64(millis: u64) -> (r: Self)
        ensures
            r.spec_nanos() == millis * 1_000_000,
            r.wf(),
    {
        Duration { nanos: (millis as u128) * 1_000_000 }
    }

    /// Returns the total length in nanoseconds.
    pub fn as_nanos(self) -> (r: u128)
        ensures
            r == self.spec_nanos(),
    {
        self.nanos
    }

    /// Returns the number of whole seconds.
    pub fn as_secs_whole(self) -> (r: u64)
        ensures
            r == self.spec_nanos() / (NANOS_PER_SEC as nat),
    {
        proof { use_type_invariant(&self); }
        (self.nanos / NANOS_PER_SEC) as u64
    }

    /// Returns the nanoseconds beyond the whole seconds.
    pub fn subsec_nanos(self) -> (r: u32)
        ensures
            r == self.spec_nanos() % (NANOS_PER_SEC as nat),
    {
        (self.nanos % NANOS_PER_SEC) as u32
    }

    /// Returns whether this duration is zero.
    pub fn is_zero(&self) -> (r: bool)
        ensures
            r == (self.spec_nanos() == 0),
    {
        self.nanos == 0
    }

    /// Multiplies the duration, or returns `None` when the product leaves the representable range.
    pub fn checked_mul(self, rhs: u32) -> (r: Option<Self>)
        ensures
            r is Some <==> self.spec_nanos() * rhs <= MAX_NANOS,
            r matches Some(d) ==> d.spec_nanos() == self.spec_nanos() * rhs && d.wf(),
    {
        proof { use_type_invariant(&self); }
        let nanos = self.nanos;
        if rhs == 0 {
            return Some(Duration { nanos: 0 });
        }
        let limit = MAX_NANOS / (rhs as u128);
        if nanos <= limit {
            proof {
                vstd::arithmetic::div_mod::lemma_fundamental_div_mod(MAX_NANOS as int, rhs as int);
                vstd::arithmetic::mul::lemma_mul_inequality(nanos as int, limit as int, rhs as int);
            }
            Some(Duration { nanos: nanos * (rhs as u128) })
        } else {
            proof {
                vstd::arithmetic::div_mod::lemma_fundamental_div_mod(MAX_NANOS as int, rhs as int);
                vstd::arithmetic::mul::lemma_mul_inequality(limit as int + 1, nanos as int, rhs as int);
                assert((limit + 1) * rhs == limit * rhs + rhs) by (nonlinear_arith);
            }
            None
        }
    }

    /// Adds two durations, or returns `None` when the sum leaves the representable range.
    pub fn checked_add(self, rhs: Self) -> (r: Option<Self>)
        ensures
            r is Some <==> self.spec_nanos() + rhs.spec_nanos() <= MAX_NANOS,
            r matches Some(d) ==> d.spec_nanos() == self.spec_nanos() + rhs.spec_nanos() && d.wf(),
    {
        proof { use_type_invariant(&self); use_type_invariant(&rhs); }
        if rhs.nanos <= MAX_NANOS - self.nanos {
            Some(Duration { nanos: self.nanos + rhs.nanos })
        } else {
            None
        }
    }

    /// Adds two durations, stopping at the largest representable duration.
    pub fn saturating_add(self, rhs: Self) -> (r: Self)
        ensures
            r.spec_nanos() == if self.spec_nanos() + rhs.spec_nanos() <= MAX_NANOS {
                self.spec_nanos() + rhs.spec_nanos()
            } else {
                MAX_NANOS as nat
            },
    {
        proof { use_type_invariant(&self); use_type_invariant(&rhs); }
        if rhs.nanos <= MAX_NANOS - self.nanos {
            Duration { nanos: self.nanos + rhs.nanos }
        } else {
            Duration { nanos: MAX_NANOS }
        }
    }

    /// Adds a start delay, or returns `None` when the sum leaves the representable range.
    pub fn checked_add_delay(self, rhs: Delay) -> (r: Option<Self>)
        ensures
            r is Some <==> self.spec_nanos() + rhs.spec_nanos() <= MAX_NANOS,
            r matches Some(d) ==> d.spec_nanos() == self.spec_nanos() + rhs.spec_nanos() && d.wf(),
    {
        proof { use_type_invariant(&self); use_type_invariant(&rhs); }
        if rhs.nanos <= MAX_NANOS - self.nanos {
            Some(Duration { nanos: self.nanos + rhs.nanos })
        } else {
            None
        }
    }

    /// Subtracts a start delay, or returns `None` when the delay is longer.
    pub fn checked_sub_delay(self, rhs: Delay) -> (r: Option<Self>)
        ensures
            r is Some <==> rhs.spec_nanos() <= self.spec_nanos(),
            r matches Some(d) ==> d.spec_nanos() == self.spec_nanos() - rhs.spec_nanos() && d.wf(),
    {
        proof { use_type_invariant(&self); }
        if rhs.nanos <= self.nanos {
            Some(Duration { nanos: self.nanos - rhs.nanos })
        } else {
            None
        }
    }

    /// Subtracts `rhs`, stopping at zero.
    pub fn saturating_sub(self, rhs: Self) -> (r: Self)
        ensures
            r.spec_nanos() == if rhs.spec_nanos() <= self.spec_nanos() {
                (self.spec_nanos() - rhs.spec_nanos()) as nat
            } else {
                0
            },
            r.wf(),
    {
        proof { use_type_invariant(&self); }
        if rhs.nanos <= self.nanos {
            Duration { nanos: self.nanos - rhs.nanos }
        } else {
            Duration { nanos: 0 }
        }
    }

    /// Returns the shorter of two durations.
    pub fn min(self, rhs: Self) -> (r: Self)
        ensures
            r == if self.spec_nanos() <= rhs.spec_nanos() {
                self
            } else {
                rhs
            },
    {
        if self.nanos <= rhs.nanos {
            self
        } else {
            rhs
        }
    }

    /// Returns the longer of two durations.
    pub fn max(self, rhs: Self) -> (r: Self)
        ensures
            r == if self.spec_nanos() >= rhs.spec_nanos() {
                self
            } else {
                rhs
            },
    {
        if self.nanos >= rhs.nanos {
            self
        } else {
            rhs
        }
    }

    /// Returns whether this duration is at least as long as `rhs`.
    pub fn at_least(self, rhs: Self) -> (r: bool)
        ensures
            r == (self.spec_nanos() >= rhs.spec_nanos()),
    {
        self.nanos >= rhs.nanos
    }
}

impl Delay {
    /// The length of this delay in nanoseconds.
    pub closed spec fn spec_nanos(self) -> nat {
        self.nanos as nat
    }

    /// Every delay stays within the range of a standard library duration.
    #[verifier::type_invariant]
    pub open spec fn wf(self) -> bool {
        self.spec_nanos() <= MAX_NANOS
    }

    /// Two delays are equal exactly when they have the same length.
    pub proof fn lemma_eq(a: Delay, b: Delay)
        ensures
            (a == b) <==> (a.spec_nanos() == b.spec_nanos()),
    {
    }

    /// The empty start delay.
    pub closed spec fn spec_zero() -> Delay {
        Delay { nanos: 0 }
    }

    /// No start delay.
    pub fn zero() -> (r: Self)
        ensures
            r.spec_nanos() == 0,
            r == Delay::spec_zero(),
            r.wf(),
    {
        Delay { nanos: 0 }
    }

    /// Creates a delay from whole seconds and additional nanoseconds.
    pub fn new(secs: u64, nanos: u32) -> (r: Self)
        requires
            secs * NANOS_PER_SEC + nanos <= MAX_NANOS,
        ensures
            r.spec_nanos() == secs * NANOS_PER_SEC + nanos,
            r.wf(),
    {
        let total: u128 = (secs as u128) * NANOS_PER_SEC + (nanos as u128);
        Delay { nanos: total }
    }

    /// Creates a delay from a whole number of nanoseconds.
    pub fn from_nanos(nanos: u64) -> (r: Self)
        ensures
            r.spec_nanos() == nanos,
            r.wf(),
    {
        Delay { nanos: nanos as u128 }
    }

    /// Creates a delay from a whole number of milliseconds.
    pub fn from_millis_u64(millis: u64) -> (r: Self)
        ensures
            r.spec_nanos() == millis * 1_000_000,
            r.wf(),
    {
        Delay { nanos: (millis as u128) * 1_000_000 }
    }

    /// Returns the total length in nanoseconds.
    pub fn as_nanos(self) -> (r: u128)
        ensures
            r == self.spec_nanos(),
    {
        self.nanos
    }

    /// Returns the number of whole seconds.
    pub fn as_secs_whole(self) -> (r: u64)
        ensures
            r == self.spec_nanos() / (NANOS_PER_SEC as nat),
    {
        proof { use_type_invariant(&self); }
        (self.nanos / NANOS_PER_SEC) as u64
    }

    /// Returns the nanoseconds beyond the whole seconds.
    pub fn subsec_nanos(self) -> (r: u32)
        ensures
            r == self.spec_nanos() % (NANOS_PER_SEC as nat),
    {
        (self.nanos % NANOS_PER_SEC) as u32
    }
}

} // verus!
