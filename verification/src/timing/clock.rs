//! The playback clock of a duration-based animation.

use vstd::prelude::*;

use crate::timing::{Duration, Timing, TimingPhase};
use crate::timing::duration::MAX_NANOS;
use crate::traits::AnimationState;

verus! {

/// Tracks the elapsed time and lifecycle state of a duration-based animation.
///
/// The clock decides when time passes and where it falls in the timing's
/// schedule; the animation that owns it maps the phase to a value.
#[derive(Debug, Clone, Copy)]
pub struct TimingClock {
    elapsed: Duration,
    timing: Timing,
    state: AnimationState,
}

impl TimingClock {
    /// Time played since the start, including the delay.
    pub closed spec fn spec_elapsed(self) -> Duration {
        self.elapsed
    }

    /// The schedule.
    pub closed spec fn spec_timing(self) -> Timing {
        self.timing
    }

    /// The lifecycle state.
    pub closed spec fn spec_state(self) -> AnimationState {
        self.state
    }

    /// The time left until the end of the schedule, when its length is representable.
    pub open spec fn spec_remaining(self) -> Option<nat> {
        match self.spec_timing().spec_total_nanos() {
            Some(total) => if total <= MAX_NANOS {
                Some(
                    if total >= self.spec_elapsed().spec_nanos() {
                        (total - self.spec_elapsed().spec_nanos()) as nat
                    } else {
                        0
                    },
                )
            } else {
                None
            },
            None => None,
        }
    }

    /// A clock at the start of `timing`, in `state`.
    pub fn new(timing: Timing, state: AnimationState) -> (r: Self)
        ensures
            r.spec_elapsed().spec_nanos() == 0,
            r.spec_timing() == timing,
            r.spec_state() == state,
    {
        TimingClock { elapsed: Duration::zero(), timing, state }
    }

    /// Returns the time played since the start.
    pub fn elapsed(&self) -> (r: Duration)
        ensures
            r == self.spec_elapsed(),
    {
        self.elapsed
    }

    /// Returns the schedule.
    pub fn timing(&self) -> (r: Timing)
        ensures
            r == self.spec_timing(),
    {
        self.timing
    }

    /// Returns the lifecycle state.
    pub fn state(&self) -> (r: AnimationState)
        ensures
            r == self.spec_state(),
    {
        self.state
    }

    /// Replaces the schedule, keeping the elapsed time and state.
    pub fn set_timing(&mut self, timing: Timing)
        ensures
            final(self).spec_timing() == timing,
            final(self).spec_elapsed() == old(self).spec_elapsed(),
            final(self).spec_state() == old(self).spec_state(),
    {
        self.timing = timing;
    }

    /// Starts the schedule over and runs.
    pub fn restart(&mut self)
        ensures
            final(self).spec_elapsed().spec_nanos() == 0,
            final(self).spec_timing() == old(self).spec_timing(),
            final(self).spec_state() == AnimationState::Running,
    {
        self.elapsed = Duration::zero();
        self.state = AnimationState::Running;
    }

    /// Lets `delta` pass while running; returns whether time passed.
    pub fn tick(&mut self, delta: Duration) -> (r: bool)
        ensures
            r == (old(self).spec_state() == AnimationState::Running),
            final(self).spec_timing() == old(self).spec_timing(),
            final(self).spec_state() == old(self).spec_state(),
            r ==> final(self).spec_elapsed().spec_nanos() == if old(self).spec_elapsed().spec_nanos()
                + delta.spec_nanos() <= MAX_NANOS {
                old(self).spec_elapsed().spec_nanos() + delta.spec_nanos()
            } else {
                MAX_NANOS as nat
            },
            !r ==> final(self).spec_elapsed() == old(self).spec_elapsed(),
    {
        match self.state {
            AnimationState::Running => {
                self.elapsed = self.elapsed.saturating_add(delta);
                true
            },
            _ => false,
        }
    }

    /// Returns the time left until the end of the schedule, when it is finite.
    pub fn remaining(&self) -> (r: Option<Duration>)
        ensures
            r is Some <==> self.spec_remaining() is Some,
            r matches Some(d) ==> self.spec_remaining() == Some(d.spec_nanos()),
    {
        match self.timing.total_duration() {
            Some(total) => Some(total.saturating_sub(self.elapsed)),
            None => None,
        }
    }

    /// Lets at most the remaining time of `delta` pass while running and returns
    /// the part of `delta` beyond the end of the schedule; a clock that is not
    /// running lets no time pass and returns all of `delta`.
    pub fn advance(&mut self, delta: Duration) -> (r: Duration)
        ensures
            final(self).spec_timing() == old(self).spec_timing(),
            final(self).spec_state() == old(self).spec_state(),
            old(self).spec_state() != AnimationState::Running ==> r == delta && *final(self)
                == *old(self),
            old(self).spec_state() == AnimationState::Running ==> match old(self).spec_remaining() {
                Some(remaining) => {
                    let consumed = if delta.spec_nanos() <= remaining {
                        delta.spec_nanos()
                    } else {
                        remaining
                    };
                    &&& r.spec_nanos() == delta.spec_nanos() - consumed
                    &&& final(self).spec_elapsed().spec_nanos() == if old(self).spec_elapsed().spec_nanos()
                        + consumed <= MAX_NANOS {
                        old(self).spec_elapsed().spec_nanos() + consumed
                    } else {
                        MAX_NANOS as nat
                    }
                },
                None => {
                    &&& r.spec_nanos() == 0
                    &&& final(self).spec_elapsed().spec_nanos() == if old(self).spec_elapsed().spec_nanos()
                        + delta.spec_nanos() <= MAX_NANOS {
                        old(self).spec_elapsed().spec_nanos() + delta.spec_nanos()
                    } else {
                        MAX_NANOS as nat
                    }
                },
            },
    {
        match self.state {
            AnimationState::Running => {},
            _ => return delta,
        }
        match self.remaining() {
            Some(remaining) => {
                let consumed = delta.min(remaining);
                let _ = self.tick(consumed);
                delta.saturating_sub(consumed)
            },
            None => {
                let _ = self.tick(delta);
                Duration::zero()
            },
        }
    }

    /// Pauses a running clock.
    pub fn pause(&mut self)
        ensures
            final(self).spec_state() == if old(self).spec_state() == AnimationState::Running {
                AnimationState::Paused
            } else {
                old(self).spec_state()
            },
            final(self).spec_elapsed() == old(self).spec_elapsed(),
            final(self).spec_timing() == old(self).spec_timing(),
    {
        match self.state {
            AnimationState::Running => {
                self.state = AnimationState::Paused;
            },
            _ => {},
        }
    }

    /// Resumes a paused clock.
    pub fn resume(&mut self)
        ensures
            final(self).spec_state() == if old(self).spec_state() == AnimationState::Paused {
                AnimationState::Running
            } else {
                old(self).spec_state()
            },
            final(self).spec_elapsed() == old(self).spec_elapsed(),
            final(self).spec_timing() == old(self).spec_timing(),
    {
        match self.state {
            AnimationState::Paused => {
                self.state = AnimationState::Running;
            },
            _ => {},
        }
    }

    /// Cancels a running or paused clock, and an idle one when `include_idle` is set.
    pub fn cancel(&mut self, include_idle: bool)
        ensures
            final(self).spec_state() == if old(self).spec_state().is_unfinished() || (include_idle
                && old(self).spec_state() == AnimationState::Idle) {
                AnimationState::Canceled
            } else {
                old(self).spec_state()
            },
            final(self).spec_elapsed() == old(self).spec_elapsed(),
            final(self).spec_timing() == old(self).spec_timing(),
    {
        match self.state {
            AnimationState::Running | AnimationState::Paused => {
                self.state = AnimationState::Canceled;
            },
            AnimationState::Idle => {
                if include_idle {
                    self.state = AnimationState::Canceled;
                }
            },
            _ => {},
        }
    }

    /// Moves to `elapsed`, at most `limit`, and runs.
    pub fn seek_to(&mut self, elapsed: Duration, limit: Duration)
        ensures
            final(self).spec_elapsed() == if elapsed.spec_nanos() <= limit.spec_nanos() {
                elapsed
            } else {
                limit
            },
            final(self).spec_state() == AnimationState::Running,
            final(self).spec_timing() == old(self).spec_timing(),
    {
        self.elapsed = elapsed.min(limit);
        self.state = AnimationState::Running;
    }

    /// Marks the clock completed.
    pub fn finish(&mut self)
        ensures
            final(self).spec_state() == AnimationState::Completed,
            final(self).spec_elapsed() == old(self).spec_elapsed(),
            final(self).spec_timing() == old(self).spec_timing(),
    {
        self.state = AnimationState::Completed;
    }

    /// Returns where the elapsed time falls in the schedule.
    pub fn phase(&self) -> (r: TimingPhase)
        ensures
            r == self.spec_timing().spec_phase_at(self.spec_elapsed().spec_nanos()),
    {
        self.timing.phase_at(self.elapsed)
    }
}

} // verus!
