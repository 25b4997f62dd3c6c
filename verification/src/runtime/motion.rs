use vstd::prelude::*;

use std::marker::PhantomData;

use crate::runtime::{MotionRuntime, RuntimeView};
use crate::runtime::anim_dyn::{AnimationDyn, TransitionSource};
use crate::runtime::command::AnimationCommand;
use crate::runtime::error::MotionError;
use crate::runtime::event::{InterruptionReason, MotionId, PlaybackId, RemovalReason};
use crate::runtime::typed::TypedAnimation;
use crate::timing::Duration;
use crate::traits::AnimationState;

verus! {

/// A typed handle to an animation stored in a `MotionRuntime`.
///
/// Handles become invalid after their animation is removed.
#[verifier::reject_recursive_types(T)]
#[derive(Debug)]
pub struct Motion<T> {
    id: MotionId,
    marker: PhantomData<T>,
}

impl<T> Clone for Motion<T> {
    fn clone(&self) -> (r: Self)
        ensures
            r == *self,
    {
        Motion { id: self.id, marker: PhantomData }
    }
}

impl<T> Copy for Motion<T> {
}

impl<T> Motion<T> {
    pub(crate) fn new(id: MotionId) -> (r: Self)
        ensures
            r.spec_id() == id,
    {
        Motion { id, marker: PhantomData }
    }

    /// The untyped ID of this motion lifecycle.
    pub closed spec fn spec_id(self) -> MotionId {
        self.id
    }

    /// Returns the untyped ID for this motion lifecycle.
    pub fn motion_id(self) -> (r: MotionId)
        ensures
            r == self.spec_id(),
    {
        self.id
    }
}

impl<T> Motion<T> {
    /// Transitions toward `target` using the motion's transition timing.
    pub fn transition_to<A: TransitionSource<Target = T>>(
        self,
        target: T,
        runtime: &mut MotionRuntime<A>,
    ) -> (r: Result<(), MotionError>)
        requires
            old(runtime).wf(),
        ensures
            final(runtime).wf(),
            r == old(runtime)@.lookup(self.spec_id()),
            r is Err ==> final(runtime)@ == old(runtime)@,
            r is Ok ==> old(runtime)@.transitioned_to(self.spec_id(), target, final(runtime)@),
    {
        runtime.transition_to(self, target)
    }

    /// Transitions toward `target` and returns the new playback ID.
    pub fn transition_to_tracked<A: TransitionSource<Target = T>>(
        self,
        target: T,
        runtime: &mut MotionRuntime<A>,
    ) -> (r: Result<PlaybackId, MotionError>)
        requires
            old(runtime).wf(),
        ensures
            final(runtime).wf(),
            r is Ok <==> old(runtime)@.lookup(self.spec_id()) is Ok,
            r is Err ==> final(runtime)@ == old(runtime)@ && r == Err::<PlaybackId, MotionError>(
                old(runtime)@.lookup(self.spec_id())->Err_0,
            ),
            r matches Ok(p) ==> p == PlaybackId::spec_new(
                self.spec_id(),
                RuntimeView::<A>::next_revision(old(runtime)@.slot_of(self.spec_id()).playback_revision),
            ),
            r is Ok ==> old(runtime)@.transitioned_to(self.spec_id(), target, final(runtime)@),
    {
        runtime.transition_to_tracked(self, target)
    }

    /// Replaces the motion's animation.
    pub fn play<A: AnimationDyn>(self, animation: A, runtime: &mut MotionRuntime<A>) -> (r: Result<
        (),
        MotionError,
    >)
        requires
            old(runtime).wf(),
        ensures
            final(runtime).wf(),
            r == old(runtime)@.lookup(self.spec_id()),
            r is Err ==> final(runtime)@ == old(runtime)@,
            r is Ok ==> old(runtime)@.record_interruption(
                self.spec_id(),
                old(runtime)@.state_of(self.spec_id()),
                InterruptionReason::Replaced,
            ).start_playback(self.spec_id()).settled_with(self.spec_id(), animation, final(runtime)@),
    {
        runtime.play(self, animation)
    }

    /// Replaces the motion's animation and returns the new playback ID.
    pub fn play_tracked<A: AnimationDyn>(self, animation: A, runtime: &mut MotionRuntime<A>) -> (r:
        Result<PlaybackId, MotionError>)
        requires
            old(runtime).wf(),
        ensures
            final(runtime).wf(),
            r is Ok <==> old(runtime)@.lookup(self.spec_id()) is Ok,
            r is Err ==> final(runtime)@ == old(runtime)@ && r == Err::<PlaybackId, MotionError>(
                old(runtime)@.lookup(self.spec_id())->Err_0,
            ),
            r matches Ok(p) ==> {
                &&& p == PlaybackId::spec_new(
                    self.spec_id(),
                    RuntimeView::<A>::next_revision(
                        old(runtime)@.slot_of(self.spec_id()).playback_revision,
                    ),
                )
                &&& old(runtime)@.record_interruption(
                    self.spec_id(),
                    old(runtime)@.state_of(self.spec_id()),
                    InterruptionReason::Replaced,
                ).start_playback(self.spec_id()).settled_with(
                    self.spec_id(),
                    animation,
                    final(runtime)@,
                )
            },
    {
        runtime.play_tracked(self, animation)
    }

    /// Returns a clone of the current value.
    pub fn value<W>(self, runtime: &MotionRuntime<TypedAnimation<T, W>>) -> (r: Result<T, MotionError>)
        where
            T: Clone,
        ensures
            r is Ok <==> runtime@.lookup(self.spec_id()) is Ok,
            r matches Err(e) ==> runtime@.value_result(self.spec_id()) == Err::<T, MotionError>(e),
            r matches Ok(v) ==> cloned(runtime@.value_result(self.spec_id())->Ok_0, v),
    {
        match runtime.value(self) {
            Ok(v) => Ok(v.clone()),
            Err(e) => Err(e),
        }
    }

    /// Returns a reference to the current value.
    pub fn value_ref<W>(self, runtime: &MotionRuntime<TypedAnimation<T, W>>) -> (r: Result<
        &T,
        MotionError,
    >)
        ensures
            r is Ok <==> runtime@.lookup(self.spec_id()) is Ok,
            r matches Err(e) ==> runtime@.value_result(self.spec_id()) == Err::<T, MotionError>(e),
            r matches Ok(v) ==> runtime@.value_result(self.spec_id()) == Ok::<T, MotionError>(*v),
    {
        runtime.value(self)
    }

    /// Returns the lifecycle state.
    pub fn state<A: AnimationDyn>(self, runtime: &MotionRuntime<A>) -> (r: Result<
        AnimationState,
        MotionError,
    >)
        ensures
            r == runtime@.state_result(self.spec_id()),
    {
        runtime.state(self)
    }

    /// Returns the ID of the current playback.
    pub fn playback<A: AnimationDyn>(self, runtime: &MotionRuntime<A>) -> (r: Result<
        PlaybackId,
        MotionError,
    >)
        ensures
            r is Ok <==> runtime@.lookup(self.spec_id()) is Ok,
            r matches Err(e) ==> runtime@.lookup(self.spec_id()) == Err::<(), MotionError>(e),
            r matches Ok(p) ==> p == runtime@.current_playback(self.spec_id()),
    {
        runtime.playback(self)
    }

    /// Returns whether the motion is active.
    pub fn is_active<A: AnimationDyn>(self, runtime: &MotionRuntime<A>) -> (r: Result<
        bool,
        MotionError,
    >)
        ensures
            r is Ok <==> runtime@.lookup(self.spec_id()) is Ok,
            r matches Err(e) ==> runtime@.lookup(self.spec_id()) == Err::<(), MotionError>(e),
            r matches Ok(b) ==> b == runtime@.animation_of(self.spec_id()).spec_active(),
    {
        runtime.is_active(self)
    }

    /// Returns whether the motion completed.
    pub fn is_completed<A: AnimationDyn>(self, runtime: &MotionRuntime<A>) -> (r: Result<
        bool,
        MotionError,
    >)
        ensures
            r is Ok <==> runtime@.lookup(self.spec_id()) is Ok,
            r matches Err(e) ==> runtime@.lookup(self.spec_id()) == Err::<(), MotionError>(e),
            r matches Ok(b) ==> b == (runtime@.state_of(self.spec_id()) == AnimationState::Completed),
    {
        match self.state(runtime) {
            Ok(AnimationState::Completed) => Ok(true),
            Ok(_) => Ok(false),
            Err(e) => Err(e),
        }
    }

    /// Pauses the motion.
    pub fn pause<A: AnimationDyn<Command = AnimationCommand>>(self, runtime: &mut MotionRuntime<A>) -> (r:
        Result<(), MotionError>)
        requires
            old(runtime).wf(),
        ensures
            final(runtime).wf(),
            r == old(runtime)@.lookup(self.spec_id()),
            r is Err ==> final(runtime)@ == old(runtime)@,
            r is Ok ==> old(runtime)@.commanded_to(
                self.spec_id(),
                AnimationCommand::Pause,
                final(runtime)@,
            ),
    {
        runtime.command(self, AnimationCommand::Pause)
    }

    /// Resumes the motion.
    pub fn resume<A: AnimationDyn<Command = AnimationCommand>>(self, runtime: &mut MotionRuntime<A>) -> (r:
        Result<(), MotionError>)
        requires
            old(runtime).wf(),
        ensures
            final(runtime).wf(),
            r == old(runtime)@.lookup(self.spec_id()),
            r is Err ==> final(runtime)@ == old(runtime)@,
            r is Ok ==> old(runtime)@.commanded_to(
                self.spec_id(),
                AnimationCommand::Resume,
                final(runtime)@,
            ),
    {
        runtime.command(self, AnimationCommand::Resume)
    }

    /// Cancels the motion.
    pub fn cancel<A: AnimationDyn<Command = AnimationCommand>>(self, runtime: &mut MotionRuntime<A>) -> (r:
        Result<(), MotionError>)
        requires
            old(runtime).wf(),
        ensures
            final(runtime).wf(),
            r == old(runtime)@.lookup(self.spec_id()),
            r is Err ==> final(runtime)@ == old(runtime)@,
            r is Ok ==> old(runtime)@.commanded_to(
                self.spec_id(),
                AnimationCommand::Cancel,
                final(runtime)@,
            ),
    {
        runtime.command(self, AnimationCommand::Cancel)
    }

    /// Moves the motion's playback position to `elapsed` from its start.
    pub fn seek<A: AnimationDyn<Command = AnimationCommand>>(
        self,
        elapsed: Duration,
        runtime: &mut MotionRuntime<A>,
    ) -> (r: Result<(), MotionError>)
        requires
            old(runtime).wf(),
        ensures
            final(runtime).wf(),
            r == old(runtime)@.lookup(self.spec_id()),
            r is Err ==> final(runtime)@ == old(runtime)@,
            r is Ok ==> old(runtime)@.commanded_to(
                self.spec_id(),
                AnimationCommand::Seek(elapsed),
                final(runtime)@,
            ),
    {
        runtime.command(self, AnimationCommand::Seek(elapsed))
    }

    /// Moves the motion to completion.
    pub fn finish<A: AnimationDyn<Command = AnimationCommand>>(self, runtime: &mut MotionRuntime<A>) -> (r:
        Result<(), MotionError>)
        requires
            old(runtime).wf(),
        ensures
            final(runtime).wf(),
            r == old(runtime)@.lookup(self.spec_id()),
            r is Err ==> final(runtime)@ == old(runtime)@,
            r is Ok ==> old(runtime)@.commanded_to(
                self.spec_id(),
                AnimationCommand::Finish,
                final(runtime)@,
            ),
    {
        runtime.command(self, AnimationCommand::Finish)
    }

    /// Removes the motion from the runtime.
    pub fn remove<A: AnimationDyn>(self, runtime: &mut MotionRuntime<A>) -> (r: Result<(), MotionError>)
        requires
            old(runtime).wf(),
        ensures
            final(runtime).wf(),
            r == old(runtime)@.lookup(self.spec_id()),
            r is Err ==> final(runtime)@ == old(runtime)@,
            r is Ok ==> final(runtime)@ == old(runtime)@.record_interruption(
                self.spec_id(),
                old(runtime)@.state_of(self.spec_id()),
                InterruptionReason::Removed,
            ).remove_slot(self.spec_id(), RemovalReason::Explicit),
    {
        runtime.remove(self)
    }
}

} // verus!
