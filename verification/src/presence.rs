//! Animated visibility lifecycle management.

use vstd::prelude::*;

use crate::runtime::{MotionRuntime, RuntimeView};
use crate::runtime::anim_dyn::TransitionSource;
use crate::runtime::error::MotionError;
use crate::runtime::event::{
    InterruptionReason, MotionEvent, MotionEventKind, MotionEventTarget, PlaybackId,
};
use crate::runtime::motion::Motion;
use crate::runtime::typed::TypedAnimation;
use crate::timing::Timing;

verus! {

/// Coordinates mounting and visibility around enter and exit animations.
///
/// Content is mounted when shown, stays mounted while its exit animation runs,
/// and is unmounted only once the exit that is still current completes.
#[verifier::reject_recursive_types(T)]
pub struct Presence<T> {
    motion: Motion<T>,
    visible: T,
    hidden: T,
    mounted: bool,
    shown: bool,
    exit_playback: Option<PlaybackId>,
}

impl<T> Presence<T> {
    /// The controlled motion.
    pub closed spec fn spec_motion(self) -> Motion<T> {
        self.motion
    }

    /// The value shown content animates toward.
    pub closed spec fn spec_visible(self) -> T {
        self.visible
    }

    /// The value hidden content animates toward.
    pub closed spec fn spec_hidden(self) -> T {
        self.hidden
    }

    /// Whether the content is mounted.
    pub closed spec fn spec_mounted(self) -> bool {
        self.mounted
    }

    /// Whether the presence target is visible.
    pub closed spec fn spec_shown(self) -> bool {
        self.shown
    }

    /// The playback of the exit whose completion unmounts the content.
    pub closed spec fn spec_exit_playback(self) -> Option<PlaybackId> {
        self.exit_playback
    }

    /// Visible content is mounted, and only hidden content waits for an exit.
    pub open spec fn wf(self) -> bool {
        &&& self.spec_shown() ==> self.spec_mounted()
        &&& self.spec_exit_playback() is Some ==> !self.spec_shown()
    }

    /// Whether `event` is the completion of the exit that is still current,
    /// the only event that unmounts content.
    pub open spec fn completes_exit(self, event: MotionEvent) -> bool {
        &&& !self.spec_shown()
        &&& self.spec_exit_playback() matches Some(exit)
        &&& event.spec_kind() == MotionEventKind::Completed
        &&& event.spec_playback() == exit
    }

    /// The presence and runtime after the target visibility switched to `visible`:
    /// showing mounts the content, drops any pending exit and transitions toward a
    /// clone of the visible value; hiding keeps the mounting, waits for the new
    /// playback as the exit and transitions toward a clone of the hidden value.
    pub open spec fn switched<A: TransitionSource<Target = T>>(
        self,
        visible: bool,
        runtime: RuntimeView<A>,
        after: Self,
        runtime_after: RuntimeView<A>,
    ) -> bool
        where
            T: Clone,
    {
        let id = self.spec_motion().spec_id();
        &&& after.spec_shown() == visible
        &&& if visible {
            &&& after.spec_mounted()
            &&& after.spec_exit_playback() is None
            &&& exists|target: T|
                cloned(self.spec_visible(), target) && #[trigger] runtime.transitioned_to(
                    id,
                    target,
                    runtime_after,
                )
        } else {
            &&& after.spec_mounted() == self.spec_mounted()
            &&& after.spec_exit_playback() == Some(
                PlaybackId::spec_new(
                    id,
                    RuntimeView::<A>::next_revision(runtime.slot_of(id).playback_revision),
                ),
            )
            &&& exists|target: T|
                cloned(self.spec_hidden(), target) && #[trigger] runtime.transitioned_to(
                    id,
                    target,
                    runtime_after,
                )
        }
    }

    /// The same presence with its target visibility and mounting changed.
    pub open spec fn same_setup(self, other: Self) -> bool {
        &&& self.spec_motion() == other.spec_motion()
        &&& self.spec_visible() == other.spec_visible()
        &&& self.spec_hidden() == other.spec_hidden()
    }

    /// Creates a hidden, unmounted presence controller whose motion rests at `hidden`.
    pub fn new<A: TransitionSource<Target = T>>(
        runtime: &mut MotionRuntime<A>,
        hidden: T,
        visible: T,
        timing: Timing,
    ) -> (r: Self)
        where
            T: Clone,
        requires
            old(runtime).wf(),
            old(runtime)@.slots.len() < usize::MAX,
        ensures
            final(runtime).wf(),
            r.wf(),
            r.spec_motion().spec_id() == old(runtime)@.next_id(),
            r.spec_hidden() == hidden,
            r.spec_visible() == visible,
            !r.spec_mounted(),
            !r.spec_shown(),
            r.spec_exit_playback() is None,
            exists|rest: T|
                cloned(hidden, rest) && #[trigger] old(runtime)@.idle_inserted(rest, timing, final(runtime)@),
    {
        let motion = runtime.motion_with(hidden.clone(), timing);
        Presence { motion, visible, hidden, mounted: false, shown: false, exit_playback: None }
    }

    /// Returns the runtime motion controlled by this presence value.
    pub fn motion(&self) -> (r: Motion<T>)
        ensures
            r == self.spec_motion(),
    {
        self.motion
    }

    /// Returns the current animated value.
    pub fn value<'a, W>(&self, runtime: &'a MotionRuntime<TypedAnimation<T, W>>) -> (r: Result<
        &'a T,
        MotionError,
    >)
        ensures
            r is Ok <==> runtime@.lookup(self.spec_motion().spec_id()) is Ok,
            r matches Err(e) ==> runtime@.value_result(self.spec_motion().spec_id()) == Err::<
                T,
                MotionError,
            >(e),
            r matches Ok(v) ==> runtime@.value_result(self.spec_motion().spec_id()) == Ok::<
                T,
                MotionError,
            >(*v),
    {
        self.motion.value_ref(runtime)
    }

    /// Returns whether the associated content should be mounted.
    pub fn is_mounted(&self) -> (r: bool)
        ensures
            r == self.spec_mounted(),
    {
        self.mounted
    }

    /// Returns whether the presence target is visible.
    pub fn is_visible(&self) -> (r: bool)
        ensures
            r == self.spec_shown(),
    {
        self.shown
    }

    /// Updates the target visibility when it differs from the current target.
    ///
    /// Returns `Ok(false)` without starting a new playback when the requested
    /// visibility is already current.
    pub fn set_visible<A: TransitionSource<Target = T>>(
        &mut self,
        visible: bool,
        runtime: &mut MotionRuntime<A>,
    ) -> (r: Result<bool, MotionError>)
        where
            T: Clone,
        requires
            old(runtime).wf(),
            old(self).wf(),
        ensures
            final(runtime).wf(),
            final(self).wf(),
            final(self).same_setup(*old(self)),
            visible == old(self).spec_shown() ==> r == Ok::<bool, MotionError>(false) && *final(self)
                == *old(self) && final(runtime)@ == old(runtime)@,
            visible != old(self).spec_shown() ==> {
                &&& r is Ok <==> old(runtime)@.lookup(old(self).spec_motion().spec_id()) is Ok
                &&& r is Ok ==> r == Ok::<bool, MotionError>(true) && old(self).switched(
                    visible,
                    old(runtime)@,
                    *final(self),
                    final(runtime)@,
                )
                &&& r matches Err(e) ==> old(runtime)@.lookup(old(self).spec_motion().spec_id())
                    == Err::<(), MotionError>(e) && *final(self) == *old(self) && final(runtime)@
                    == old(runtime)@
            },
    {
        if self.shown == visible {
            return Ok(false);
        }
        let result = if visible {
            self.show(runtime)
        } else {
            self.hide_content(runtime)
        };
        match result {
            Ok(()) => Ok(true),
            Err(e) => Err(e),
        }
    }

    /// Toggles the target visibility.
    pub fn toggle<A: TransitionSource<Target = T>>(&mut self, runtime: &mut MotionRuntime<A>) -> (r:
        Result<bool, MotionError>)
        where
            T: Clone,
        requires
            old(runtime).wf(),
            old(self).wf(),
        ensures
            final(runtime).wf(),
            final(self).wf(),
            final(self).same_setup(*old(self)),
            r is Ok <==> old(runtime)@.lookup(old(self).spec_motion().spec_id()) is Ok,
            r is Ok ==> r == Ok::<bool, MotionError>(true) && old(self).switched(
                !old(self).spec_shown(),
                old(runtime)@,
                *final(self),
                final(runtime)@,
            ),
            r matches Err(e) ==> old(runtime)@.lookup(old(self).spec_motion().spec_id()) == Err::<
                (),
                MotionError,
            >(e) && *final(self) == *old(self) && final(runtime)@ == old(runtime)@,
    {
        let visible = !self.shown;
        self.set_visible(visible, runtime)
    }

    /// Mounts the content and transitions toward the visible value.
    pub fn show<A: TransitionSource<Target = T>>(&mut self, runtime: &mut MotionRuntime<A>) -> (r:
        Result<(), MotionError>)
        where
            T: Clone,
        requires
            old(runtime).wf(),
        ensures
            final(runtime).wf(),
            final(self).same_setup(*old(self)),
            r == old(runtime)@.lookup(old(self).spec_motion().spec_id()),
            r is Err ==> *final(self) == *old(self) && final(runtime)@ == old(runtime)@,
            r is Ok ==> {
                &&& final(self).spec_mounted()
                &&& final(self).spec_shown()
                &&& final(self).spec_exit_playback() is None
                &&& exists|target: T|
                    cloned(old(self).spec_visible(), target) && #[trigger] old(runtime)@.transitioned_to(
                        old(self).spec_motion().spec_id(),
                        target,
                        final(runtime)@,
                    )
            },
    {
        match self.motion.transition_to_tracked(self.visible.clone(), runtime) {
            Ok(_) => {},
            Err(e) => return Err(e),
        }
        self.exit_playback = None;
        self.mounted = true;
        self.shown = true;
        Ok(())
    }

    /// Transitions toward the hidden value; the content stays mounted until the
    /// exit completes.
    pub fn hide_content<A: TransitionSource<Target = T>>(&mut self, runtime: &mut MotionRuntime<A>) -> (r:
        Result<(), MotionError>)
        where
            T: Clone,
        requires
            old(runtime).wf(),
        ensures
            final(runtime).wf(),
            final(self).same_setup(*old(self)),
            r == old(runtime)@.lookup(old(self).spec_motion().spec_id()),
            r is Err ==> *final(self) == *old(self) && final(runtime)@ == old(runtime)@,
            r is Ok ==> {
                &&& final(self).spec_mounted() == old(self).spec_mounted()
                &&& !final(self).spec_shown()
                &&& final(self).spec_exit_playback() == Some(
                    PlaybackId::spec_new(
                        old(self).spec_motion().spec_id(),
                        RuntimeView::<A>::next_revision(
                            old(runtime)@.slot_of(old(self).spec_motion().spec_id()).playback_revision,
                        ),
                    ),
                )
                &&& exists|target: T|
                    cloned(old(self).spec_hidden(), target) && #[trigger] old(runtime)@.transitioned_to(
                        old(self).spec_motion().spec_id(),
                        target,
                        final(runtime)@,
                    )
            },
    {
        let playback = match self.motion.transition_to_tracked(self.hidden.clone(), runtime) {
            Ok(p) => p,
            Err(e) => return Err(e),
        };
        self.shown = false;
        self.exit_playback = Some(playback);
        Ok(())
    }

    /// Mounts the content and plays a custom enter animation.
    pub fn show_with<A: TransitionSource<Target = T>>(
        &mut self,
        animation: A,
        runtime: &mut MotionRuntime<A>,
    ) -> (r: Result<(), MotionError>)
        requires
            old(runtime).wf(),
        ensures
            final(runtime).wf(),
            final(self).same_setup(*old(self)),
            r == old(runtime)@.lookup(old(self).spec_motion().spec_id()),
            r is Err ==> *final(self) == *old(self) && final(runtime)@ == old(runtime)@,
            r is Ok ==> {
                &&& final(self).spec_mounted()
                &&& final(self).spec_shown()
                &&& final(self).spec_exit_playback() is None
                &&& old(runtime)@.record_interruption(
                    old(self).spec_motion().spec_id(),
                    old(runtime)@.state_of(old(self).spec_motion().spec_id()),
                    InterruptionReason::Replaced,
                ).start_playback(old(self).spec_motion().spec_id()).settled_with(
                    old(self).spec_motion().spec_id(),
                    animation,
                    final(runtime)@,
                )
            },
    {
        match self.motion.play_tracked(animation, runtime) {
            Ok(_) => {},
            Err(e) => return Err(e),
        }
        self.exit_playback = None;
        self.mounted = true;
        self.shown = true;
        Ok(())
    }

    /// Plays a custom exit animation; the content stays mounted until it completes.
    pub fn hide_with<A: TransitionSource<Target = T>>(
        &mut self,
        animation: A,
        runtime: &mut MotionRuntime<A>,
    ) -> (r: Result<(), MotionError>)
        requires
            old(runtime).wf(),
        ensures
            final(runtime).wf(),
            final(self).same_setup(*old(self)),
            r == old(runtime)@.lookup(old(self).spec_motion().spec_id()),
            r is Err ==> *final(self) == *old(self) && final(runtime)@ == old(runtime)@,
            r is Ok ==> {
                &&& final(self).spec_mounted() == old(self).spec_mounted()
                &&& !final(self).spec_shown()
                &&& final(self).spec_exit_playback() == Some(
                    PlaybackId::spec_new(
                        old(self).spec_motion().spec_id(),
                        RuntimeView::<A>::next_revision(
                            old(runtime)@.slot_of(old(self).spec_motion().spec_id()).playback_revision,
                        ),
                    ),
                )
                &&& old(runtime)@.record_interruption(
                    old(self).spec_motion().spec_id(),
                    old(runtime)@.state_of(old(self).spec_motion().spec_id()),
                    InterruptionReason::Replaced,
                ).start_playback(old(self).spec_motion().spec_id()).settled_with(
                    old(self).spec_motion().spec_id(),
                    animation,
                    final(runtime)@,
                )
            },
    {
        let playback = match self.motion.play_tracked(animation, runtime) {
            Ok(p) => p,
            Err(e) => return Err(e),
        };
        self.shown = false;
        self.exit_playback = Some(playback);
        Ok(())
    }

    /// Applies one runtime event and returns whether the mounted state changed.
    ///
    /// Only completion of the current exit playback unmounts content. Events
    /// from interrupted or superseded exits are ignored.
    pub fn handle_event(&mut self, event: &MotionEvent) -> (r: bool)
        ensures
            final(self).same_setup(*old(self)),
            final(self).spec_shown() == old(self).spec_shown(),
            old(self).wf() ==> final(self).wf(),
            old(self).completes_exit(*event) ==> {
                &&& r == old(self).spec_mounted()
                &&& !final(self).spec_mounted()
                &&& final(self).spec_exit_playback() is None
            },
            !old(self).completes_exit(*event) ==> !r && *final(self) == *old(self),
    {
        let exit_playback = match self.exit_playback {
            Some(p) => p,
            None => return false,
        };
        if self.shown || !event.is_completed_for(exit_playback) {
            return false;
        }
        let changed = self.mounted;
        self.mounted = false;
        self.exit_playback = None;
        changed
    }

    /// Unmounts hidden content once its motion has completed.
    pub fn sync<A: TransitionSource<Target = T>>(&mut self, runtime: &MotionRuntime<A>) -> (r: Result<
        (),
        MotionError,
    >)
        ensures
            final(self).same_setup(*old(self)),
            final(self).spec_shown() == old(self).spec_shown(),
            old(self).wf() ==> final(self).wf(),
            old(self).spec_shown() ==> r is Ok && *final(self) == *old(self),
            !old(self).spec_shown() ==> {
                &&& r == runtime@.lookup(old(self).spec_motion().spec_id())
                &&& r is Err ==> *final(self) == *old(self)
                &&& r is Ok ==> if runtime@.state_of(old(self).spec_motion().spec_id())
                    == crate::traits::AnimationState::Completed {
                    !final(self).spec_mounted() && final(self).spec_exit_playback() is None
                } else {
                    *final(self) == *old(self)
                }
            },
    {
        if !self.shown {
            let completed = match self.motion.is_completed(runtime) {
                Ok(c) => c,
                Err(e) => return Err(e),
            };
            if completed {
                self.mounted = false;
                self.exit_playback = None;
            }
        }
        Ok(())
    }
}

} // verus!
