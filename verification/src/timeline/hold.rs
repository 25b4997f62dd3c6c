//! An animation that keeps its value for a fixed duration.

use vstd::prelude::*;

use crate::timing::Duration;
use crate::traits::{Animation, AnimationState};

verus! {

/// An animation that keeps a value unchanged for a fixed duration.
#[derive(Debug)]
pub struct Hold<T> {
    value: T,
    elapsed: Duration,
    duration: Duration,
    state: AnimationState,
}

impl<T> Hold<T> {
    /// The elapsed time never exceeds the hold's duration.
    #[verifier::type_invariant]
    pub closed spec fn inv(self) -> bool {
        self.elapsed.spec_nanos() <= self.duration.spec_nanos()
    }

    /// Time spent holding so far.
    pub closed spec fn spec_elapsed(self) -> Duration {
        self.elapsed
    }

    /// The length of the hold.
    pub closed spec fn spec_length(self) -> Duration {
        self.duration
    }

    /// Creates a running hold animation.
    pub fn new(value: T, duration: Duration) -> (r: Self)
        ensures
            r.spec_value() == value,
            r.spec_length() == duration,
            r.spec_elapsed().spec_nanos() == 0,
            r.spec_state() == AnimationState::Running,
    {
        Hold { value, elapsed: Duration::zero(), duration, state: AnimationState::Running }
    }
}

impl<T: Clone> Clone for Hold<T> {
    fn clone(&self) -> (r: Self)
        ensures
            cloned(self.spec_value(), r.spec_value()),
            r.spec_elapsed() == self.spec_elapsed(),
            r.spec_length() == self.spec_length(),
            r.spec_state() == self.spec_state(),
    {
        proof {
            use_type_invariant(self);
        }
        Hold {
            value: self.value.clone(),
            elapsed: self.elapsed,
            duration: self.duration,
            state: self.state,
        }
    }
}

impl<T> Animation<T> for Hold<T> {
    closed spec fn spec_state(&self) -> AnimationState {
        self.state
    }

    closed spec fn spec_value(&self) -> T {
        self.value
    }

    open spec fn spec_duration(&self) -> Option<Duration> {
        Some(self.spec_length())
    }

    open spec fn spec_position(&self) -> Duration {
        self.spec_elapsed()
    }

    fn value(&self) -> (r: &T) {
        &self.value
    }

    fn state(&self) -> (r: AnimationState) {
        self.state
    }

    fn duration(&self) -> (r: Option<Duration>) {
        Some(self.duration)
    }

    fn is_active(&self) -> (r: bool) {
        match self.state {
            AnimationState::Running => true,
            _ => false,
        }
    }

    fn tick(&mut self, delta: Duration)
        ensures
            final(self).spec_value() == old(self).spec_value(),
            final(self).spec_length() == old(self).spec_length(),
            old(self).spec_state() != AnimationState::Running ==> *final(self) == *old(self),
            old(self).spec_state() == AnimationState::Running ==> {
                let total = old(self).spec_elapsed().spec_nanos() + delta.spec_nanos();
                let length = old(self).spec_length().spec_nanos();
                &&& final(self).spec_elapsed().spec_nanos() == if total <= length {
                    total
                } else {
                    length
                }
                &&& final(self).spec_state() == if total >= length {
                    AnimationState::Completed
                } else {
                    AnimationState::Running
                }
            },
    {
        let _ = self.advance(delta);
    }

    fn advance(&mut self, delta: Duration) -> (r: Duration)
        ensures
            final(self).spec_value() == old(self).spec_value(),
            final(self).spec_length() == old(self).spec_length(),
            old(self).spec_state() != AnimationState::Running ==> *final(self) == *old(self) && r
                == delta,
            old(self).spec_state() == AnimationState::Running ==> {
                let total = old(self).spec_elapsed().spec_nanos() + delta.spec_nanos();
                let length = old(self).spec_length().spec_nanos();
                &&& final(self).spec_elapsed().spec_nanos() == if total <= length {
                    total
                } else {
                    length
                }
                &&& final(self).spec_state() == if total >= length {
                    AnimationState::Completed
                } else {
                    AnimationState::Running
                }
                &&& r.spec_nanos() == if total <= length {
                    0
                } else {
                    (total - length) as nat
                }
            },
    {
        proof {
            use_type_invariant(&*self);
            use_type_invariant(&self.duration);
            use_type_invariant(&self.elapsed);
            use_type_invariant(&delta);
        }
        if self.state != AnimationState::Running {
            return delta;
        }
        let remaining = self.duration.saturating_sub(self.elapsed);
        let consumed = delta.min(remaining);
        let elapsed = match self.elapsed.checked_add(consumed) {
            Some(elapsed) => elapsed,
            None => self.duration,
        };
        self.elapsed = elapsed;
        if self.elapsed.at_least(self.duration) {
            self.state = AnimationState::Completed;
        }
        delta.saturating_sub(consumed)
    }

    fn pause(&mut self)
        ensures
            final(self).spec_state() == if old(self).spec_state() == AnimationState::Running {
                AnimationState::Paused
            } else {
                old(self).spec_state()
            },
            final(self).spec_value() == old(self).spec_value(),
            final(self).spec_elapsed() == old(self).spec_elapsed(),
            final(self).spec_length() == old(self).spec_length(),
    {
        proof {
            use_type_invariant(&*self);
        }
        if self.state == AnimationState::Running {
            self.state = AnimationState::Paused;
        }
    }

    fn resume(&mut self)
        ensures
            final(self).spec_state() == if old(self).spec_state() == AnimationState::Paused {
                AnimationState::Running
            } else {
                old(self).spec_state()
            },
            final(self).spec_value() == old(self).spec_value(),
            final(self).spec_elapsed() == old(self).spec_elapsed(),
            final(self).spec_length() == old(self).spec_length(),
    {
        proof {
            use_type_invariant(&*self);
        }
        if self.state == AnimationState::Paused {
            self.state = AnimationState::Running;
        }
    }

    fn cancel(&mut self)
        ensures
            final(self).spec_state() == if old(self).spec_state().is_unfinished() {
                AnimationState::Canceled
            } else {
                old(self).spec_state()
            },
            final(self).spec_value() == old(self).spec_value(),
            final(self).spec_elapsed() == old(self).spec_elapsed(),
            final(self).spec_length() == old(self).spec_length(),
    {
        proof {
            use_type_invariant(&*self);
        }
        if self.state == AnimationState::Running || self.state == AnimationState::Paused {
            self.state = AnimationState::Canceled;
        }
    }

    fn seek_to(&mut self, elapsed: Duration)
        ensures
            final(self).spec_elapsed().spec_nanos() == if elapsed.spec_nanos()
                <= old(self).spec_length().spec_nanos() {
                elapsed.spec_nanos()
            } else {
                old(self).spec_length().spec_nanos()
            },
            final(self).spec_state() == if elapsed.spec_nanos()
                >= old(self).spec_length().spec_nanos() {
                AnimationState::Completed
            } else {
                AnimationState::Running
            },
            final(self).spec_value() == old(self).spec_value(),
            final(self).spec_length() == old(self).spec_length(),
    {
        proof {
            use_type_invariant(&*self);
        }
        self.elapsed = elapsed.min(self.duration);
        self.state = if elapsed.at_least(self.duration) {
            AnimationState::Completed
        } else {
            AnimationState::Running
        };
    }

    fn finish(&mut self)
        ensures
            final(self).spec_state() == AnimationState::Completed,
            final(self).spec_elapsed() == old(self).spec_length(),
            final(self).spec_value() == old(self).spec_value(),
            final(self).spec_length() == old(self).spec_length(),
    {
        proof {
            use_type_invariant(&*self);
        }
        self.elapsed = self.duration;
        self.state = AnimationState::Completed;
    }

    /// A hold does not retarget.
    fn retarget(&mut self, target: &T) -> (r: bool) {
        false
    }

    fn into_value(self: Box<Self>) -> (r: T) {
        let hold = *self;
        hold.value
    }
}

} // verus!
