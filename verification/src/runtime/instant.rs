//! Wall-clock instants and standard library durations at the runtime's edge.

use vstd::prelude::*;

use crate::timing::duration::{Duration, MAX_NANOS, NANOS_PER_SEC};

verus! {

/// A measurement of the monotonic clock; its contents stay opaque here.
#[verifier::external_type_specification]
#[verifier::external_body]
pub struct ExInstant(std::time::Instant);

/// The time from `earlier` to `now` as `Instant::saturating_duration_since`
/// measures it: a function of the two instants alone.
pub uninterp spec fn instant_gap(now: std::time::Instant, earlier: std::time::Instant) -> std::time::Duration;

/// `Instant::saturating_duration_since`: the time from `earlier` to `now`, or zero
/// when `earlier` is later. Its result is named [`instant_gap`]; how long it is
/// depends on the instants, which come from the clock, and is not stated.
#[verifier::external_body]
pub(crate) fn saturating_duration_since(
    now: std::time::Instant,
    earlier: std::time::Instant,
) -> (r: std::time::Duration)
    ensures
        r == instant_gap(now, earlier),
{
    now.saturating_duration_since(earlier)
}

/// The whole seconds of a standard library duration, as `as_secs` reports them.
pub uninterp spec fn std_duration_secs(d: std::time::Duration) -> u64;

/// The fractional nanoseconds of a standard library duration, as `subsec_nanos` reports them.
pub uninterp spec fn std_duration_subsec_nanos(d: std::time::Duration) -> u32;

/// `std::time::Duration::as_secs`: the whole seconds of a standard duration.
#[verifier::external_body]
pub(crate) fn std_secs(d: std::time::Duration) -> (r: u64)
    ensures
        r == std_duration_secs(d),
{
    d.as_secs()
}

/// `std::time::Duration::subsec_nanos`: the fractional part in nanoseconds, which
/// the documentation states is always less than one billion.
#[verifier::external_body]
pub(crate) fn std_subsec_nanos(d: std::time::Duration) -> (r: u32)
    ensures
        r == std_duration_subsec_nanos(d),
        r < 1_000_000_000,
{
    d.subsec_nanos()
}

/// `std::time::Duration::new`: a standard duration of `secs` seconds and `nanos`
/// nanoseconds; with `nanos` below one billion no carry occurs, it cannot panic, and
/// `as_secs` and `subsec_nanos` give back the two parts.
#[verifier::external_body]
pub(crate) fn std_duration_new(secs: u64, nanos: u32) -> (r: std::time::Duration)
    requires
        nanos < 1_000_000_000,
    ensures
        std_duration_secs(r) == secs,
        std_duration_subsec_nanos(r) == nanos,
{
    std::time::Duration::new(secs, nanos)
}

/// `Vec::capacity`: how many elements fit without reallocating, which the
/// documentation places at or above the length; the exact value depends on the allocator.
#[verifier::external_body]
pub(crate) fn vec_capacity<T>(v: &Vec<T>) -> (r: usize)
    ensures
        r >= v.len(),
{
    v.capacity()
}

/// `Vec::shrink_to_fit`: releases spare capacity; the contents stay the same.
#[verifier::external_body]
pub(crate) fn vec_shrink_to_fit<T>(v: &mut Vec<T>)
    ensures
        final(v)@ == old(v)@,
{
    v.shrink_to_fit()
}

impl Duration {
    /// Converts a standard library duration.
    pub fn from_std(d: std::time::Duration) -> (r: Duration)
        ensures
            r.spec_nanos() == std_duration_secs(d) * NANOS_PER_SEC + std_duration_subsec_nanos(d),
    {
        let secs = std_secs(d);
        let nanos = std_subsec_nanos(d);
        proof {
            assert(secs * NANOS_PER_SEC + nanos <= MAX_NANOS) by (nonlinear_arith)
                requires
                    secs <= u64::MAX,
                    nanos < 1_000_000_000,
            ;
        }
        Duration::new(secs, nanos)
    }

    /// Converts to a standard library duration of the same length.
    pub fn to_std(self) -> (r: std::time::Duration)
        ensures
            std_duration_secs(r) * NANOS_PER_SEC + std_duration_subsec_nanos(r)
                == self.spec_nanos(),
    {
        proof {
            use_type_invariant(&self);
        }
        let secs = self.as_secs_whole();
        let nanos = self.subsec_nanos();
        std_duration_new(secs, nanos)
    }
}

} // verus!
