//! How a UI event loop schedules animation ticks.

use vstd::prelude::*;

use crate::runtime::instant::{
    std_duration_new, std_duration_secs, std_duration_subsec_nanos, std_secs, std_subsec_nanos,
};
use crate::timing::duration::NANOS_PER_SEC;

verus! {

/// The identity of an Iced window; its contents stay opaque here.
#[verifier::external_type_specification]
#[verifier::external_body]
pub struct ExWindowId(iced_core::window::Id);

/// Controls how a subscription schedules animation ticks.
#[derive(Debug, Clone, Copy, PartialEq, Eq, Hash)]
pub enum TickPolicy {
    /// Request ticks from the window frame stream.
    Frames,
    /// Request ticks at a fixed interval.
    Interval(std::time::Duration),
}

/// The length of a standard library duration in nanoseconds.
pub open spec fn std_nanos(d: std::time::Duration) -> nat {
    (std_duration_secs(d) * NANOS_PER_SEC + std_duration_subsec_nanos(d)) as nat
}

/// Whether `n` is a power of two.
pub open spec fn is_pow2(n: nat) -> bool
    decreases n,
{
    if n == 1 {
        true
    } else if n >= 2 && n % 2 == 0 {
        is_pow2(n / 2)
    } else {
        false
    }
}

/// One second divided by `rate`, rounded to the nearest nanosecond. A remainder
/// of exactly half a nanosecond rounds down for a power-of-two rate and up
/// otherwise; this rule was chosen to agree with the tie cases of rounding a
/// binary floating-point reciprocal, which is not itself modelled here.
pub open spec fn frame_interval_nanos(rate: nat) -> nat
    recommends
        rate > 0,
{
    let q = NANOS_PER_SEC as nat / rate;
    let r = NANOS_PER_SEC as nat % rate;
    if 2 * r > rate || (2 * r == rate && !is_pow2(rate)) {
        q + 1
    } else {
        q
    }
}

fn is_power_of_two(n: u64) -> (r: bool)
    requires
        n > 0,
    ensures
        r == is_pow2(n as nat),
{
    let mut m = n;
    while m % 2 == 0
        invariant
            m > 0,
            is_pow2(m as nat) == is_pow2(n as nat),
        decreases m,
    {
        m = m / 2;
    }
    m == 1
}

impl TickPolicy {
    /// Returns a frame-driven tick policy.
    pub fn frames() -> (r: Self)
        ensures
            r == TickPolicy::Frames,
    {
        TickPolicy::Frames
    }

    /// Returns a fixed-interval tick policy.
    pub fn interval(duration: std::time::Duration) -> (r: Self)
        ensures
            r == TickPolicy::Interval(duration),
    {
        TickPolicy::Interval(duration)
    }

    /// Returns a fixed-interval policy for the requested frame rate.
    ///
    /// A rate of zero is treated as one frame per second.
    pub fn fps(frames_per_second: u16) -> (r: Self)
        ensures
            r matches TickPolicy::Interval(d) && std_nanos(d) == frame_interval_nanos(
                if frames_per_second == 0 {
                    1
                } else {
                    frames_per_second as nat
                },
            ),
    {
        let rate: u64 = if frames_per_second == 0 {
            1
        } else {
            frames_per_second as u64
        };
        let second: u64 = 1_000_000_000;
        let q = second / rate;
        let rem = second % rate;
        let round_up = 2 * rem > rate || (2 * rem == rate && !is_power_of_two(rate));
        let nanos = if round_up {
            q + 1
        } else {
            q
        };
        proof {
            assert(q <= second && (rate >= 2 ==> q < second)) by (nonlinear_arith)
                requires
                    q == second / rate,
                    rate >= 1,
                    second == 1_000_000_000,
            ;
            assert(rate == 1 ==> rem == 0);
        }
        let d = std_duration_new(nanos / second, (nanos % second) as u32);
        TickPolicy::Interval(d)
    }
}

/// What a subscription asks of the event loop.
#[derive(Debug, Clone, Copy, PartialEq, Eq)]
pub enum TickRequest {
    /// No ticks: nothing is animating.
    Idle,
    /// A tick on every window frame.
    Frames,
    /// A tick at this fixed interval.
    Every(std::time::Duration),
}

/// The shortest interval a subscription ticks at: one millisecond.
pub open spec fn min_interval_nanos() -> nat {
    1_000_000
}

impl TickPolicy {
    /// The ticks a runtime subscribes to under this policy: none while
    /// `has_active` is false, otherwise window frames, or the policy's interval
    /// raised to at least one millisecond.
    pub fn request(self, has_active: bool) -> (r: TickRequest)
        ensures
            !has_active ==> r == TickRequest::Idle,
            has_active && self == TickPolicy::Frames ==> r == TickRequest::Frames,
            has_active && self is Interval ==> ({
                let d = self->Interval_0;
                &&& r is Every
                &&& std_nanos(r->Every_0) == if std_nanos(d) >= min_interval_nanos() {
                    std_nanos(d)
                } else {
                    min_interval_nanos()
                }
                &&& std_nanos(d) >= min_interval_nanos() ==> r->Every_0 == d
            }),
    {
        if !has_active {
            return TickRequest::Idle;
        }
        match self {
            TickPolicy::Frames => TickRequest::Frames,
            TickPolicy::Interval(d) => {
                let secs = std_secs(d);
                let nanos = std_subsec_nanos(d);
                if secs == 0 && nanos < 1_000_000 {
                    TickRequest::Every(std_duration_new(0, 1_000_000))
                } else {
                    TickRequest::Every(d)
                }
            },
        }
    }
}

impl Default for TickPolicy {
    fn default() -> (r: Self)
        ensures
            r == TickPolicy::Frames,
    {
        TickPolicy::Frames
    }
}

/// A timestamped animation tick associated with a window.
pub struct WindowFrame {
    /// The window that requested the redraw or owns the interval tick.
    pub window: iced_core::window::Id,
    /// The instant at which the tick occurred.
    pub at: std::time::Instant,
}

} // verus!
