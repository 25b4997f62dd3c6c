//! The interface through which the runtime drives the animations it stores.

use vstd::prelude::*;

use crate::timing::{Duration, Timing};
use crate::traits::AnimationState;

verus! {

/// An animation stored in a runtime slot.
///
/// The runtime never looks inside a stored animation: it advances it, sends it
/// commands, and reads back its lifecycle state and whether it is active.
pub trait AnimationDyn: Sized {
    /// The value a transition moves toward.
    type Target;

    /// The commands the animation accepts.
    type Command;

    /// The lifecycle state.
    spec fn spec_state(&self) -> AnimationState;

    /// Whether the animation still needs ticks.
    spec fn spec_active(&self) -> bool;

    /// The total duration when it is finite and known.
    spec fn spec_duration(&self) -> Option<Duration>;

    /// The current value.
    spec fn spec_current_value(&self) -> Self::Target;

    /// Whether `after` is what advancing this animation by `delta` can give.
    spec fn spec_advanced(&self, delta: Duration, after: Self) -> bool;

    /// Whether `after` is what applying `command` to this animation can give.
    spec fn spec_commanded(&self, command: Self::Command, after: Self) -> bool;

    /// Whether retargeting this animation toward `target` can report `done` and
    /// leave `after`.
    spec fn spec_retargeted(&self, target: Self::Target, done: bool, after: Self) -> bool;

    /// Returns the lifecycle state.
    fn state(&self) -> (r: AnimationState)
        ensures
            r == self.spec_state(),
    ;

    /// Returns whether the animation still needs ticks.
    fn is_active(&self) -> (r: bool)
        ensures
            r == self.spec_active(),
    ;

    /// Returns the total duration when it is finite and known.
    fn duration(&self) -> (r: Option<Duration>)
        ensures
            r == self.spec_duration(),
    ;

    /// Advances the animation by `delta`.
    fn advance(&mut self, delta: Duration)
        ensures
            old(self).spec_advanced(delta, *final(self)),
    ;

    /// Applies a lifecycle command.
    fn command(&mut self, command: Self::Command)
        ensures
            old(self).spec_commanded(command, *final(self)),
    ;

    /// Releases playback resources of a settled animation, keeping its state and value.
    fn compact(self) -> (r: Self)
        ensures
            r.spec_state() == self.spec_state(),
            r.spec_current_value() == self.spec_current_value(),
            r.spec_active() == self.spec_active(),
    ;

    /// Attempts to continue toward `target` in place; returns whether it did.
    fn retarget(&mut self, target: &Self::Target) -> (r: bool)
        ensures
            old(self).spec_retargeted(*target, r, *final(self)),
    ;
}

/// An animation kind that can start idle at a value and build transitions.
pub trait TransitionSource: AnimationDyn {
    /// Whether `r` is an idle animation resting at `value` built with `timing`.
    spec fn spec_idle(value: Self::Target, timing: Timing, r: Self) -> bool;

    /// Whether `r` is a transition from this animation's current value toward
    /// `target` with `timing`.
    spec fn spec_transition(&self, target: Self::Target, timing: Timing, r: Self) -> bool;

    /// An idle animation resting at `value`, whose later transitions use `timing`.
    fn idle(value: Self::Target, timing: Timing) -> (r: Self)
        ensures
            Self::spec_idle(value, timing, r),
    ;

    /// A transition from this animation's current value toward `target`.
    fn transition(&self, target: Self::Target, timing: Timing) -> (r: Self)
        ensures
            self.spec_transition(target, timing, r),
    ;
}

} // verus!
