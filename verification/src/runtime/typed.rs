//! The runtime slot animation for motions of one value type.

use vstd::prelude::*;

use std::marker::PhantomData;

use crate::runtime::anim_dyn::{AnimationDyn, TransitionSource};
use crate::runtime::command::AnimationCommand;
use crate::timing::{Duration, Timing};
use crate::traits::{Animation, AnimationState, BoxAnimation};
use crate::traits::{position_sought, position_ticked};

verus! {

/// Builds the animations a typed runtime slot uses for idle motions and for
/// transitions toward a new target.
pub trait Tweener<T> {
    /// The transition this tweener builds from `from` toward `to` with `timing`.
    spec fn spec_between(from: T, to: T, timing: Timing) -> BoxAnimation<T>;

    /// An idle animation resting at `value`, not yet started.
    fn idle(value: T, timing: Timing) -> (r: BoxAnimation<T>)
        ensures
            r.0.spec_value() == value,
            r.0.spec_state() == AnimationState::Idle,
    ;

    /// A transition from `from` toward `to`.
    fn between(from: T, to: T, timing: Timing) -> (r: BoxAnimation<T>)
        ensures
            r == Self::spec_between(from, to, timing),
    ;
}

/// Something that becomes an animation once the motion's current value is known.
pub trait MotionSource<T>: Sized {
    /// The animation this source builds when the motion currently reads `current`.
    spec fn spec_into_animation(self, current: T) -> BoxAnimation<T>;

    /// Builds the animation starting from `current`.
    fn into_animation(self, current: T) -> (r: BoxAnimation<T>)
        ensures
            r == self.spec_into_animation(current),
    ;
}

/// How a typed slot animation is stored.
#[verifier::reject_recursive_types(T)]
pub enum AnimationStorage<T> {
    /// A live animation source.
    Running(BoxAnimation<T>),
    /// The final value and state of a source that settled.
    Settled { value: T, state: AnimationState },
}

/// A slot animation producing values of type `T`, whose transitions are built by `W`.
#[verifier::reject_recursive_types(T)]
#[verifier::reject_recursive_types(W)]
pub struct TypedAnimation<T, W> {
    storage: AnimationStorage<T>,
    tweener: PhantomData<W>,
}

impl<T, W> TypedAnimation<T, W> {
    /// How the animation is stored.
    pub closed spec fn spec_storage(&self) -> AnimationStorage<T> {
        self.storage
    }

    /// The current value.
    pub open spec fn spec_value(&self) -> T {
        match self.spec_storage() {
            AnimationStorage::Running(a) => a.0.spec_value(),
            AnimationStorage::Settled { value, .. } => value,
        }
    }

    /// The playback position of a live source, in nanoseconds; a settled
    /// animation has none.
    pub open spec fn spec_position(&self) -> Option<nat> {
        match self.spec_storage() {
            AnimationStorage::Running(a) => Some(a.0.spec_position().spec_nanos()),
            AnimationStorage::Settled { .. } => None,
        }
    }

    /// Wraps a live animation source.
    pub fn new(animation: Box<dyn Animation<T>>) -> (r: Self)
        ensures
            r.spec_storage() == AnimationStorage::Running(BoxAnimation(animation)),
    {
        TypedAnimation { storage: AnimationStorage::Running(BoxAnimation(animation)), tweener: PhantomData }
    }

    /// Wraps the live animation that a factory built.
    pub(crate) fn from_box(animation: BoxAnimation<T>) -> (r: Self)
        ensures
            r.spec_storage() == AnimationStorage::Running(animation),
            r.spec_value() == animation.0.spec_value(),
            r.spec_state() == animation.0.spec_state(),
    {
        TypedAnimation { storage: AnimationStorage::Running(animation), tweener: PhantomData }
    }

    /// A settled animation resting at `value` in `state`.
    pub fn settled(value: T, state: AnimationState) -> (r: Self)
        ensures
            r.spec_storage() == (AnimationStorage::Settled { value, state }),
    {
        TypedAnimation { storage: AnimationStorage::Settled { value, state }, tweener: PhantomData }
    }

    /// Returns the current value.
    pub fn value(&self) -> (r: &T)
        ensures
            *r == self.spec_value(),
    {
        match &self.storage {
            AnimationStorage::Running(animation) => animation.0.value(),
            AnimationStorage::Settled { value, .. } => value,
        }
    }
}

impl<T, W> AnimationDyn for TypedAnimation<T, W> {
    type Target = T;

    type Command = AnimationCommand;

    open spec fn spec_state(&self) -> AnimationState {
        match self.spec_storage() {
            AnimationStorage::Running(a) => a.0.spec_state(),
            AnimationStorage::Settled { state, .. } => state,
        }
    }

    open spec fn spec_active(&self) -> bool {
        match self.spec_storage() {
            AnimationStorage::Running(a) => a.0.spec_state() == AnimationState::Running,
            _ => false,
        }
    }

    open spec fn spec_current_value(&self) -> T {
        self.spec_value()
    }

    /// A settled animation stays as it is; a live source stays live. One that is
    /// not running keeps its state, value and position; a running one moves its
    /// position forward by `delta`, or by less when it stops on the way.
    open spec fn spec_advanced(&self, delta: Duration, after: Self) -> bool {
        match self.spec_storage() {
            AnimationStorage::Running(_) => {
                &&& after.spec_storage() is Running
                &&& self.spec_state() != AnimationState::Running ==> after.spec_state() == self.spec_state()
                    && after.spec_value() == self.spec_value() && after.spec_position()
                    == self.spec_position()
                &&& self.spec_state() == AnimationState::Running ==> position_ticked(
                    self.spec_position()->Some_0,
                    after.spec_position()->Some_0,
                    delta.spec_nanos(),
                    after.spec_state() == AnimationState::Running,
                )
            },
            AnimationStorage::Settled { .. } => after == *self,
        }
    }

    /// A settled animation keeps its value and completes on `Finish`, ignoring
    /// other commands; a live source stays live, keeps its position when paused,
    /// resumed or canceled, and lands where it is sought.
    open spec fn spec_commanded(&self, command: AnimationCommand, after: Self) -> bool {
        match self.spec_storage() {
            AnimationStorage::Running(_) => {
                &&& after.spec_storage() is Running
                &&& match command {
                    AnimationCommand::Pause => after.spec_value() == self.spec_value()
                        && after.spec_position() == self.spec_position()
                        && after.spec_state() == if self.spec_state() == AnimationState::Running {
                        AnimationState::Paused
                    } else {
                        self.spec_state()
                    },
                    AnimationCommand::Resume => after.spec_value() == self.spec_value()
                        && after.spec_position() == self.spec_position()
                        && after.spec_state() == if self.spec_state() == AnimationState::Paused {
                        AnimationState::Running
                    } else {
                        self.spec_state()
                    },
                    AnimationCommand::Cancel => {
                        &&& after.spec_value() == self.spec_value()
                        &&& after.spec_position() == self.spec_position()
                        &&& self.spec_state().is_unfinished() ==> after.spec_state()
                            == AnimationState::Canceled
                        &&& self.spec_state().is_settled() ==> after.spec_state() == self.spec_state()
                        &&& self.spec_state() == AnimationState::Idle ==> after.spec_state()
                            == AnimationState::Idle || after.spec_state() == AnimationState::Canceled
                    },
                    AnimationCommand::Finish => after.spec_state() == AnimationState::Completed,
                    AnimationCommand::Seek(elapsed) => position_sought(
                        self.spec_duration(),
                        elapsed.spec_nanos(),
                        after.spec_position()->Some_0,
                    ),
                }
            },
            AnimationStorage::Settled { value, state } => after.spec_storage() == (
            AnimationStorage::Settled {
                value,
                state: if command == AnimationCommand::Finish {
                    AnimationState::Completed
                } else {
                    state
                },
            }),
        }
    }

    /// A settled animation does not retarget and stays as it is; a live source
    /// stays live and retargets exactly when it supports it, keeping its state
    /// and value when it does not.
    open spec fn spec_retargeted(&self, target: T, done: bool, after: Self) -> bool {
        match self.spec_storage() {
            AnimationStorage::Running(a) => {
                &&& after.spec_storage() is Running
                &&& done == a.0.spec_retargets()
                &&& !done ==> after.spec_state() == self.spec_state() && after.spec_value()
                    == self.spec_value()
            },
            AnimationStorage::Settled { .. } => !done && after == *self,
        }
    }

    /// The stored source's duration; a settled animation lasts zero.
    open spec fn spec_duration(&self) -> Option<Duration> {
        match self.spec_storage() {
            AnimationStorage::Running(a) => a.0.spec_duration(),
            AnimationStorage::Settled { .. } => Some(Duration::spec_from_nanos(0)),
        }
    }

    fn state(&self) -> (r: AnimationState) {
        match &self.storage {
            AnimationStorage::Running(animation) => animation.0.state(),
            AnimationStorage::Settled { state, .. } => *state,
        }
    }

    fn is_active(&self) -> (r: bool) {
        match &self.storage {
            AnimationStorage::Running(animation) => animation.0.is_active(),
            _ => false,
        }
    }

    fn duration(&self) -> (r: Option<Duration>) {
        match &self.storage {
            AnimationStorage::Running(animation) => animation.0.duration(),
            AnimationStorage::Settled { .. } => {
                let zero = Duration::zero();
                proof {
                    Duration::lemma_from_nanos(0);
                    Duration::lemma_eq(zero, Duration::spec_from_nanos(0));
                }
                Some(zero)
            },
        }
    }

    /// Advances a live source by `delta`; a settled animation is left as it is.
    fn advance(&mut self, delta: Duration)
        ensures
            old(self).spec_storage() is Settled ==> *final(self) == *old(self),
            old(self).spec_storage() is Running ==> final(self).spec_storage() is Running,
    {
        match &mut self.storage {
            AnimationStorage::Running(animation) => {
                let _ = animation.0.advance(delta);
            },
            _ => {},
        }
    }

    fn command(&mut self, command: AnimationCommand)
        ensures
            old(self).spec_storage() is Settled ==> {
                &&& final(self).spec_storage() is Settled
                &&& final(self).spec_value() == old(self).spec_value()
                &&& final(self).spec_state() == if command == AnimationCommand::Finish {
                    AnimationState::Completed
                } else {
                    old(self).spec_state()
                }
            },
    {
        match &mut self.storage {
            AnimationStorage::Running(animation) => match command {
                AnimationCommand::Pause => animation.0.pause(),
                AnimationCommand::Resume => animation.0.resume(),
                AnimationCommand::Cancel => animation.0.cancel(),
                AnimationCommand::Seek(elapsed) => animation.0.seek_to(elapsed),
                AnimationCommand::Finish => animation.0.finish(),
            },
            AnimationStorage::Settled { state, .. } => {
                if command == AnimationCommand::Finish {
                    *state = AnimationState::Completed;
                }
            },
        }
    }

    fn compact(self) -> (r: Self)
        ensures
            r.spec_value() == self.spec_value(),
            self.spec_state().is_settled() && self.spec_storage() is Running ==> r.spec_storage() is Settled,
            !(self.spec_state().is_settled() && self.spec_storage() is Running) ==> r == self,
    {
        let settled_state = match &self.storage {
            AnimationStorage::Running(animation) => {
                let state = animation.0.state();
                match state {
                    AnimationState::Completed | AnimationState::Canceled => Some(state),
                    _ => None,
                }
            },
            _ => None,
        };
        match settled_state {
            None => self,
            Some(state) => match self.storage {
                AnimationStorage::Running(animation) => {
                    let value = animation.0.into_value();
                    TypedAnimation {
                        storage: AnimationStorage::Settled { value, state },
                        tweener: PhantomData,
                    }
                },
                AnimationStorage::Settled { value, state } => TypedAnimation {
                    storage: AnimationStorage::Settled { value, state },
                    tweener: PhantomData,
                },
            },
        }
    }

    fn retarget(&mut self, target: &T) -> (r: bool)
        ensures
            old(self).spec_storage() !is Running ==> !r && *final(self) == *old(self),
            old(self).spec_storage() is Running ==> final(self).spec_storage() is Running,
    {
        match &mut self.storage {
            AnimationStorage::Running(animation) => animation.0.retarget(target),
            _ => false,
        }
    }
}

impl<T: Clone + 'static, W: Tweener<T>> TransitionSource for TypedAnimation<T, W> {
    /// A live idle source resting at `value`.
    open spec fn spec_idle(value: T, timing: Timing, r: Self) -> bool {
        &&& r.spec_storage() is Running
        &&& r.spec_value() == value
        &&& r.spec_state() == AnimationState::Idle
    }

    /// The tweener's transition from a clone of the current value toward `target`
    /// with `timing`.
    open spec fn spec_transition(&self, target: T, timing: Timing, r: Self) -> bool {
        exists|current: T|
            cloned(self.spec_value(), current) && r.spec_storage() == AnimationStorage::Running(
                #[trigger] W::spec_between(current, target, timing),
            )
    }

    /// A live source built by [`Tweener::idle`].
    fn idle(value: T, timing: Timing) -> (r: Self) {
        TypedAnimation::from_box(W::idle(value, timing))
    }

    /// A live source built by [`Tweener::between`] from the current value.
    fn transition(&self, target: T, timing: Timing) -> (r: Self) {
        let current = self.value().clone();
        let built = W::between(current, target, timing);
        TypedAnimation::from_box(built)
    }
}

} // verus!
