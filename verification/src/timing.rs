//! Timing configuration and elapsed-time normalization.

pub mod clock;
pub mod duration;
pub mod easing;
pub mod iteration;
pub mod mode;

use vstd::prelude::*;

pub use duration::{Delay, Duration};
pub use lilt::Easing;
pub use iteration::IterationCount;
pub use mode::Direction;

use easing::{Curve, curve_easing, easing_of};

verus! {

/// Where an elapsed time falls in a timing's schedule.
#[derive(Debug, Clone, Copy, PartialEq, Eq)]
pub enum TimingPhase {
    /// Still inside the start delay: the animation shows its start value.
    Delayed,
    /// Past the last iteration, or the iteration length is zero: the animation is finished.
    Finished,
    /// Inside an iteration.
    Active {
        /// Index of the iteration, saturating at `u32::MAX`.
        iteration: u32,
        /// Time into the iteration, less than the iteration length.
        offset: Duration,
        /// Whether the iteration plays from end to start.
        reversed: bool,
    },
}

/// Timing configuration shared by duration-based animations.
#[derive(Debug, Clone, Copy, PartialEq)]
pub struct Timing {
    duration: Duration,
    delay: Delay,
    direction: Direction,
    easing: Easing,
    iterations: IterationCount,
}

impl Timing {
    /// Active duration of one iteration.
    pub closed spec fn spec_duration(self) -> Duration {
        self.duration
    }

    /// Start delay before the active interval.
    pub closed spec fn spec_delay(self) -> Delay {
        self.delay
    }

    /// Playback direction configuration.
    pub closed spec fn spec_direction(self) -> Direction {
        self.direction
    }

    /// Number of active iterations.
    pub closed spec fn spec_iterations(self) -> IterationCount {
        self.iterations
    }

    /// Easing curve applied to normalized iteration progress.
    pub closed spec fn spec_easing(self) -> Easing {
        self.easing
    }

    /// The active duration of all iterations in nanoseconds, when the count is finite.
    pub open spec fn spec_active_nanos(self) -> Option<nat> {
        match self.spec_iterations().spec_finite_count() {
            Some(count) => Some(self.spec_duration().spec_nanos() * (count as nat)),
            None => None,
        }
    }

    /// The total length including delay in nanoseconds, when the count is finite.
    pub open spec fn spec_total_nanos(self) -> Option<nat> {
        match self.spec_active_nanos() {
            Some(active) => Some(active + self.spec_delay().spec_nanos()),
            None => None,
        }
    }

    /// The linear timing of one iteration lasting `duration`, without delay, in
    /// the normal direction.
    pub closed spec fn spec_linear(duration: Duration) -> Timing {
        Timing {
            duration,
            delay: Delay::spec_zero(),
            direction: Direction::Normal,
            easing: easing_of(Curve::Linear),
            iterations: IterationCount::Finite(1),
        }
    }

    /// Creates a linear timing value with the given duration.
    pub fn new(duration: Duration) -> (r: Self)
        ensures
            r == Timing::spec_linear(duration),
            r.spec_duration() == duration,
            r.spec_delay().spec_nanos() == 0,
            r.spec_direction() == Direction::Normal,
            r.spec_iterations() == IterationCount::Finite(1),
            r.spec_easing() == easing_of(Curve::Linear),
    {
        Timing {
            duration,
            delay: Delay::zero(),
            direction: Direction::Normal,
            easing: curve_easing(Curve::Linear),
            iterations: IterationCount::Finite(1),
        }
    }

    /// Creates a linear timing with the given duration.
    pub fn linear(duration: Duration) -> (r: Self)
        ensures
            r.spec_duration() == duration,
            r.spec_delay().spec_nanos() == 0,
            r.spec_direction() == Direction::Normal,
            r.spec_iterations() == IterationCount::Finite(1),
            r.spec_easing() == easing_of(Curve::Linear),
    {
        Self::new(duration)
    }

    /// Creates an ease-in timing with the given duration.
    pub fn ease_in(duration: Duration) -> (r: Self)
        ensures
            r.spec_duration() == duration,
            r.spec_delay().spec_nanos() == 0,
            r.spec_direction() == Direction::Normal,
            r.spec_iterations() == IterationCount::Finite(1),
            r.spec_easing() == easing_of(Curve::EaseIn),
    {
        Self::new(duration).with_easing(curve_easing(Curve::EaseIn))
    }

    /// Creates an ease-out timing with the given duration.
    pub fn ease_out(duration: Duration) -> (r: Self)
        ensures
            r.spec_duration() == duration,
            r.spec_delay().spec_nanos() == 0,
            r.spec_direction() == Direction::Normal,
            r.spec_iterations() == IterationCount::Finite(1),
            r.spec_easing() == easing_of(Curve::EaseOut),
    {
        Self::new(duration).with_easing(curve_easing(Curve::EaseOut))
    }

    /// Creates an ease-in-out timing with the given duration.
    pub fn ease_in_out(duration: Duration) -> (r: Self)
        ensures
            r.spec_duration() == duration,
            r.spec_delay().spec_nanos() == 0,
            r.spec_direction() == Direction::Normal,
            r.spec_iterations() == IterationCount::Finite(1),
            r.spec_easing() == easing_of(Curve::EaseInOut),
    {
        Self::new(duration).with_easing(curve_easing(Curve::EaseInOut))
    }

    /// Returns the duration of the timing.
    pub fn duration(&self) -> (r: Duration)
        ensures
            r == self.spec_duration(),
    {
        self.duration
    }

    /// Returns the delay of the timing.
    pub fn delay(&self) -> (r: Delay)
        ensures
            r == self.spec_delay(),
    {
        self.delay
    }

    /// Returns the direction of the timing.
    pub fn direction(&self) -> (r: Direction)
        ensures
            r == self.spec_direction(),
    {
        self.direction
    }

    /// Returns the easing curve of the timing.
    pub fn easing(&self) -> (r: Easing)
        ensures
            r == self.spec_easing(),
    {
        self.easing
    }

    /// Returns the number of iterations of the timing.
    pub fn iterations(&self) -> (r: IterationCount)
        ensures
            r == self.spec_iterations(),
    {
        self.iterations
    }

    /// Sets the duration.
    pub fn with_duration(self, duration: Duration) -> (r: Self)
        ensures
            r.spec_duration() == duration,
            r.spec_delay() == self.spec_delay(),
            r.spec_direction() == self.spec_direction(),
            r.spec_easing() == self.spec_easing(),
            r.spec_iterations() == self.spec_iterations(),
    {
        Timing { duration, ..self }
    }

    /// Sets the start delay.
    pub fn with_delay(self, delay: Delay) -> (r: Self)
        ensures
            r.spec_duration() == self.spec_duration(),
            r.spec_delay() == delay,
            r.spec_direction() == self.spec_direction(),
            r.spec_easing() == self.spec_easing(),
            r.spec_iterations() == self.spec_iterations(),
    {
        Timing { delay, ..self }
    }

    /// Sets the playback direction.
    pub fn with_direction(self, direction: Direction) -> (r: Self)
        ensures
            r.spec_duration() == self.spec_duration(),
            r.spec_delay() == self.spec_delay(),
            r.spec_direction() == direction,
            r.spec_easing() == self.spec_easing(),
            r.spec_iterations() == self.spec_iterations(),
    {
        Timing { direction, ..self }
    }

    /// Sets the easing curve.
    pub fn with_easing(self, easing: Easing) -> (r: Self)
        ensures
            r.spec_duration() == self.spec_duration(),
            r.spec_delay() == self.spec_delay(),
            r.spec_direction() == self.spec_direction(),
            r.spec_easing() == easing,
            r.spec_iterations() == self.spec_iterations(),
    {
        Timing { easing, ..self }
    }

    /// Sets the iteration count.
    pub fn with_iterations(self, iterations: IterationCount) -> (r: Self)
        ensures
            r.spec_duration() == self.spec_duration(),
            r.spec_delay() == self.spec_delay(),
            r.spec_direction() == self.spec_direction(),
            r.spec_easing() == self.spec_easing(),
            r.spec_iterations() == iterations,
    {
        Timing { iterations, ..self }
    }

    /// Returns the total active duration when the timing has a finite length.
    ///
    /// `None` is returned for infinite iteration counts and for products beyond
    /// the representable range.
    pub fn active_duration(self) -> (r: Option<Duration>)
        ensures
            r is Some <==> (self.spec_active_nanos() matches Some(n) && n <= duration::MAX_NANOS),
            r matches Some(d) ==> self.spec_active_nanos() == Some(d.spec_nanos()) && d.wf(),
    {
        let count = match self.iterations.finite_count() {
            Some(count) => count,
            None => return None,
        };
        self.duration.checked_mul(count)
    }

    /// Returns the total duration including delay when finite.
    ///
    /// `None` is returned for infinite iteration counts and for totals beyond
    /// the representable range.
    pub fn total_duration(self) -> (r: Option<Duration>)
        ensures
            r is Some <==> (self.spec_total_nanos() matches Some(n) && n <= duration::MAX_NANOS),
            r matches Some(d) ==> self.spec_total_nanos() == Some(d.spec_nanos()) && d.wf(),
    {
        proof {
            use_type_invariant(&self.duration);
            use_type_invariant(&self.delay);
        }
        let active = match self.active_duration() {
            Some(active) => active,
            None => return None,
        };
        active.checked_add_delay(self.delay)
    }
}

impl Default for Timing {
    /// The default timing: zero duration, no delay, normal direction, linear easing, one iteration.
    fn default() -> (r: Self)
        ensures
            r == Timing::spec_linear(Duration::spec_from_nanos(0)),
            r.spec_duration().spec_nanos() == 0,
            r.spec_delay().spec_nanos() == 0,
            r.spec_direction() == Direction::Normal,
            r.spec_iterations() == IterationCount::Finite(1),
            r.spec_easing() == easing_of(Curve::Linear),
    {
        let duration = Duration::zero();
        proof {
            Duration::lemma_from_nanos(0);
            Duration::lemma_eq(duration, Duration::spec_from_nanos(0));
        }
        Timing {
            duration,
            delay: Delay::zero(),
            direction: Direction::Normal,
            easing: curve_easing(Curve::Linear),
            iterations: IterationCount::Finite(1),
        }
    }
}

impl Timing {
    /// The phase of the schedule at `elapsed` nanoseconds from the start.
    pub open spec fn spec_phase_at(self, elapsed: nat) -> TimingPhase {
        let delay = self.spec_delay().spec_nanos();
        let length = self.spec_duration().spec_nanos();
        if elapsed < delay {
            TimingPhase::Delayed
        } else if length == 0 {
            TimingPhase::Finished
        } else {
            let active = (elapsed - delay) as nat;
            let finished = match self.spec_iterations().spec_finite_count() {
                Some(count) => active >= length * (count as nat),
                None => false,
            };
            if finished {
                TimingPhase::Finished
            } else {
                let iteration = if active / length > u32::MAX {
                    u32::MAX
                } else {
                    (active / length) as u32
                };
                TimingPhase::Active {
                    iteration,
                    offset: Duration::spec_from_nanos(active % length),
                    reversed: self.spec_direction().spec_is_reversed_iteration(iteration),
                }
            }
        }
    }

    /// Whether `phase` places `elapsed` nanoseconds correctly in this schedule:
    /// it is delayed exactly before the delay has passed; after that it is
    /// finished exactly when an iteration lasts zero or all iterations have
    /// passed; otherwise it names the iteration and the time into it that make up
    /// the active time since the delay ended (the index held at `u32::MAX`), with
    /// that iteration's direction.
    pub open spec fn places(self, elapsed: nat, phase: TimingPhase) -> bool {
        let delay = self.spec_delay().spec_nanos();
        let length = self.spec_duration().spec_nanos();
        &&& (phase is Delayed) == (elapsed < delay)
        &&& elapsed >= delay ==> ((phase is Finished) == (length == 0 || (
        self.spec_iterations().spec_finite_count() matches Some(count) && elapsed - delay >= length
            * count)))
        &&& phase is Active ==> {
            let iteration = phase->iteration;
            let offset = phase->offset.spec_nanos();
            &&& elapsed >= delay
            &&& offset < length
            &&& (elapsed - delay - offset) % (length as int) == 0
            &&& iteration < u32::MAX ==> iteration * length + offset == elapsed - delay
            &&& iteration == u32::MAX ==> iteration * length + offset <= elapsed - delay
            &&& phase->reversed == self.spec_direction().spec_is_reversed_iteration(iteration)
        }
    }

    /// The schedule places every elapsed time correctly: in the delay, finished,
    /// or in the iteration whose start plus the offset is the time since the delay
    /// ended.
    pub proof fn lemma_phase_at_places(self, elapsed: nat)
        ensures
            self.places(elapsed, self.spec_phase_at(elapsed)),
    {
        let delay = self.spec_delay().spec_nanos();
        let length = self.spec_duration().spec_nanos();
        let phase = self.spec_phase_at(elapsed);
        if elapsed >= delay && length > 0 {
            let active = (elapsed - delay) as nat;
            let q = active / length;
            let m = active % length;
            vstd::arithmetic::div_mod::lemma_fundamental_div_mod(active as int, length as int);
            vstd::arithmetic::div_mod::lemma_mod_pos_bound(active as int, length as int);
            assert(length * q == q * length) by (nonlinear_arith);
            vstd::arithmetic::div_mod::lemma_mod_multiples_basic(q as int, length as int);
            Duration::lemma_nanos_bound(self.spec_duration());
            if phase is Active {
                Duration::lemma_from_nanos_u128(m);
                if q > u32::MAX {
                    assert(u32::MAX * length <= q * length) by (nonlinear_arith)
                        requires
                            q > u32::MAX,
                    ;
                }
            }
        }
    }

    /// Returns where `elapsed` falls in the schedule: in the delay, finished, or
    /// inside an iteration together with the time into it and its direction.
    pub fn phase_at(self, elapsed: Duration) -> (r: TimingPhase)
        ensures
            r == self.spec_phase_at(elapsed.spec_nanos()),
            self.places(elapsed.spec_nanos(), r),
    {
        proof {
            use_type_invariant(&elapsed);
            self.lemma_phase_at_places(elapsed.spec_nanos());
        }
        let elapsed_nanos = elapsed.as_nanos();
        let delay = self.delay.as_nanos();
        if elapsed_nanos < delay {
            return TimingPhase::Delayed;
        }
        let length = self.duration.as_nanos();
        if length == 0 {
            return TimingPhase::Finished;
        }
        let active = elapsed_nanos - delay;
        match self.iterations.finite_count() {
            Some(count) => {
                let count = count as u128;
                if active / length >= count {
                    proof {
                        assert(active >= length * count) by (nonlinear_arith)
                            requires
                                active / length >= count,
                                length > 0,
                        ;
                    }
                    return TimingPhase::Finished;
                }
                proof {
                    assert(active < length * count) by (nonlinear_arith)
                        requires
                            active / length < count,
                            length > 0,
                    ;
                }
            },
            None => {},
        }
        let whole = active / length;
        let iteration: u32 = if whole > u32::MAX as u128 {
            u32::MAX
        } else {
            whole as u32
        };
        let offset_nanos = active % length;
        proof {
            assert(offset_nanos <= active) by (nonlinear_arith)
                requires
                    offset_nanos == active % length,
                    length > 0,
            ;
        }
        let offset = Duration::from_nanos_u128(offset_nanos);
        proof {
            Duration::lemma_from_nanos(offset_nanos as nat);
            Duration::lemma_eq(offset, Duration::spec_from_nanos(offset_nanos as nat));
        }
        TimingPhase::Active {
            iteration,
            offset,
            reversed: self.direction.is_reversed_iteration(iteration),
        }
    }
}

} // verus!
