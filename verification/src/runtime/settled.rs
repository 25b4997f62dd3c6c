//! A finished animation that only keeps its final value.

use vstd::prelude::*;

use crate::timing::Duration;
use crate::traits::{Animation, AnimationState};

verus! {

/// An animation that rests at a value in a fixed lifecycle state.
pub struct Settled<T> {
    value: T,
    state: AnimationState,
}

impl<T> Settled<T> {
    /// A settled animation is never running or paused.
    #[verifier::type_invariant]
    spec fn not_playing(self) -> bool {
        !self.state.is_unfinished()
    }

    /// Creates a settled animation resting at `value` in `state`, which is
    /// neither running nor paused.
    pub fn new(value: T, state: AnimationState) -> (r: Self)
        requires
            !state.is_unfinished(),
        ensures
            r.spec_value() == value,
            r.spec_state() == state,
    {
        Settled { value, state }
    }
}

impl<T> Animation<T> for Settled<T> {
    closed spec fn spec_state(&self) -> AnimationState {
        self.state
    }

    closed spec fn spec_value(&self) -> T {
        self.value
    }

    open spec fn spec_duration(&self) -> Option<Duration> {
        Some(Duration::spec_from_nanos(0))
    }

    /// A settled animation stays at the start of its empty timeline.
    open spec fn spec_position(&self) -> Duration {
        Duration::spec_from_nanos(0)
    }

    fn value(&self) -> (r: &T) {
        &self.value
    }

    fn state(&self) -> (r: AnimationState) {
        self.state
    }

    fn duration(&self) -> (r: Option<Duration>) {
        let zero = Duration::zero();
        proof {
            Duration::lemma_from_nanos(0);
            Duration::lemma_eq(zero, Duration::spec_from_nanos(0));
        }
        Some(zero)
    }

    fn is_active(&self) -> (r: bool) {
        match self.state {
            AnimationState::Running => true,
            _ => false,
        }
    }

    fn tick(&mut self, delta: Duration)
        ensures
            *final(self) == *old(self),
    {
        proof {
            use_type_invariant(&*self);
        }
    }

    fn advance(&mut self, delta: Duration) -> (r: Duration)
        ensures
            *final(self) == *old(self),
            r == delta,
    {
        proof {
            use_type_invariant(&*self);
        }
        delta
    }

    fn pause(&mut self)
        ensures
            *final(self) == *old(self),
    {
        proof {
            use_type_invariant(&*self);
        }
    }

    fn resume(&mut self)
        ensures
            *final(self) == *old(self),
    {
        proof {
            use_type_invariant(&*self);
        }
    }

    fn cancel(&mut self)
        ensures
            *final(self) == *old(self),
    {
        proof {
            use_type_invariant(&*self);
        }
    }

    fn seek_to(&mut self, elapsed: Duration)
        ensures
            *final(self) == *old(self),
    {
        proof {
            Duration::lemma_from_nanos(0);
        }
    }

    fn finish(&mut self)
        ensures
            final(self).spec_state() == AnimationState::Completed,
            final(self).spec_value() == old(self).spec_value(),
    {
        self.state = AnimationState::Completed;
    }

    /// A settled does not retarget.
    fn retarget(&mut self, target: &T) -> (r: bool) {
        false
    }

    fn into_value(self: Box<Self>) -> (r: T) {
        let settled = *self;
        settled.value
    }
}

} // verus!
