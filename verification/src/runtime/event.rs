//! Runtime animation lifecycle events and stable identifiers.

use vstd::prelude::*;

use crate::runtime::motion::Motion;
use crate::runtime::private::Sealed;

verus! {

/// Identifies one runtime motion slot lifecycle.
///
/// A slot's generation changes when storage is reused, so events from a
/// removed motion never match a later motion occupying the same slot.
#[derive(Debug, Clone, Copy, PartialEq, Eq, Hash, Structural)]
pub struct MotionId {
    slot: usize,
    generation: u64,
}

impl MotionId {
    pub(crate) fn new(slot: usize, generation: u64) -> (r: Self)
        ensures
            r == MotionId::spec_new(slot, generation),
    {
        Self { slot, generation }
    }

    /// The ID of the given slot lifecycle.
    pub closed spec fn spec_new(slot: usize, generation: u64) -> MotionId {
        MotionId { slot, generation }
    }

    /// An ID reports the slot and generation it was built from.
    pub broadcast proof fn lemma_new(slot: usize, generation: u64)
        ensures
            (#[trigger] MotionId::spec_new(slot, generation)).spec_slot() == slot,
            MotionId::spec_new(slot, generation).spec_generation() == generation,
    {
    }

    /// The runtime slot index captured by this ID.
    pub closed spec fn spec_slot(self) -> usize {
        self.slot
    }

    /// The slot generation captured by this ID.
    pub closed spec fn spec_generation(self) -> u64 {
        self.generation
    }

    /// Returns the runtime slot index.
    pub fn slot(self) -> (r: usize)
        ensures
            r == self.spec_slot(),
    {
        self.slot
    }

    /// Returns the slot generation captured by this ID.
    pub fn generation(self) -> (r: u64)
        ensures
            r == self.spec_generation(),
    {
        self.generation
    }

    /// Two IDs are equal exactly when their slot and generation are equal.
    pub proof fn lemma_eq(a: MotionId, b: MotionId)
        ensures
            (a == b) <==> (a.spec_slot() == b.spec_slot() && a.spec_generation()
                == b.spec_generation()),
    {
    }
}

/// Identifies one concrete playback on a motion.
///
/// Replacing or retargeting a motion creates a new playback ID even though the
/// typed [`Motion`] handle remains unchanged.
#[derive(Debug, Clone, Copy, PartialEq, Eq, Hash, Structural)]
pub struct PlaybackId {
    motion: MotionId,
    revision: u64,
}

impl PlaybackId {
    pub(crate) fn new(motion: MotionId, revision: u64) -> (r: Self)
        ensures
            r == PlaybackId::spec_new(motion, revision),
    {
        Self { motion, revision }
    }

    /// The ID of the given playback revision of `motion`.
    pub closed spec fn spec_new(motion: MotionId, revision: u64) -> PlaybackId {
        PlaybackId { motion, revision }
    }

    /// A playback ID reports the motion and revision it was built from.
    pub broadcast proof fn lemma_new(motion: MotionId, revision: u64)
        ensures
            (#[trigger] PlaybackId::spec_new(motion, revision)).spec_motion() == motion,
            PlaybackId::spec_new(motion, revision).spec_revision() == revision,
    {
    }

    /// The motion owning this playback.
    pub closed spec fn spec_motion(self) -> MotionId {
        self.motion
    }

    /// The playback revision within the motion lifecycle.
    pub closed spec fn spec_revision(self) -> u64 {
        self.revision
    }

    /// Returns the motion owning this playback.
    pub fn motion(self) -> (r: MotionId)
        ensures
            r == self.spec_motion(),
    {
        self.motion
    }

    /// Returns the playback revision within the motion lifecycle.
    pub fn revision(self) -> (r: u64)
        ensures
            r == self.spec_revision(),
    {
        self.revision
    }

    /// Two playback IDs are equal exactly when their motion and revision are equal.
    pub proof fn lemma_eq(a: PlaybackId, b: PlaybackId)
        ensures
            (a == b) <==> (a.spec_motion() == b.spec_motion() && a.spec_revision()
                == b.spec_revision()),
    {
    }
}

/// Explains why an unfinished playback stopped.
#[derive(Debug, Clone, Copy, PartialEq, Eq, Hash, Structural)]
#[non_exhaustive]
pub enum InterruptionReason {
    /// A new animation replaced the playback.
    Replaced,
    /// A transition retargeted the playback.
    Retargeted,
    /// The owning motion was removed.
    Removed,
}

/// Explains why a motion left runtime storage.
#[derive(Debug, Clone, Copy, PartialEq, Eq, Hash, Structural)]
#[non_exhaustive]
pub enum RemovalReason {
    /// The application explicitly removed the motion.
    Explicit,
    /// The motion used `RetainPolicy::DropWhenSettled`.
    Settled,
}

/// The lifecycle change represented by a [`MotionEvent`].
#[derive(Debug, Clone, Copy, PartialEq, Eq, Hash, Structural)]
#[non_exhaustive]
pub enum MotionEventKind {
    /// The playback reached its completed state.
    Completed,
    /// The playback was canceled.
    Canceled,
    /// The playback stopped because another operation superseded it.
    Interrupted(InterruptionReason),
    /// The owning motion was removed from runtime storage.
    Removed(RemovalReason),
}

impl MotionEventKind {
    /// Whether this kind ends a playback (completion, cancelation or interruption).
    pub open spec fn is_terminal(self) -> bool {
        match self {
            MotionEventKind::Removed(_) => false,
            _ => true,
        }
    }
}

/// A structured runtime lifecycle event.
#[derive(Debug, Clone, Copy, PartialEq, Eq, Hash, Structural)]
pub struct MotionEvent {
    motion: MotionId,
    playback: PlaybackId,
    kind: MotionEventKind,
}

impl MotionEvent {
    pub(crate) fn new(playback: PlaybackId, kind: MotionEventKind) -> (r: Self)
        ensures
            r == MotionEvent::spec_new(playback, kind),
    {
        Self { motion: playback.motion(), playback, kind }
    }

    /// The event of `kind` for `playback`.
    pub closed spec fn spec_new(playback: PlaybackId, kind: MotionEventKind) -> MotionEvent {
        MotionEvent { motion: playback.spec_motion(), playback, kind }
    }

    /// An event reports the playback, motion and kind it was built from.
    pub broadcast proof fn lemma_new(playback: PlaybackId, kind: MotionEventKind)
        ensures
            (#[trigger] MotionEvent::spec_new(playback, kind)).spec_playback() == playback,
            MotionEvent::spec_new(playback, kind).spec_motion() == playback.spec_motion(),
            MotionEvent::spec_new(playback, kind).spec_kind() == kind,
    {
    }

    /// The motion associated with this event.
    pub closed spec fn spec_motion(self) -> MotionId {
        self.motion
    }

    /// The concrete playback associated with this event.
    pub closed spec fn spec_playback(self) -> PlaybackId {
        self.playback
    }

    /// The event kind.
    pub closed spec fn spec_kind(self) -> MotionEventKind {
        self.kind
    }

    /// Every event names the motion of its own playback.
    #[verifier::type_invariant]
    pub closed spec fn wf(self) -> bool {
        self.motion == self.playback.spec_motion()
    }

    /// Returns the motion associated with this event: the motion of its playback.
    pub fn motion(self) -> (r: MotionId)
        ensures
            r == self.spec_motion(),
            r == self.spec_playback().spec_motion(),
    {
        proof {
            use_type_invariant(&self);
        }
        self.motion
    }

    /// Returns the concrete playback associated with this event.
    pub fn playback(self) -> (r: PlaybackId)
        ensures
            r == self.spec_playback(),
    {
        self.playback
    }

    /// Returns the event kind.
    pub fn kind(self) -> (r: MotionEventKind)
        ensures
            r == self.spec_kind(),
    {
        self.kind
    }

    /// Returns whether this event belongs to `target`.
    pub fn is_for<Target: MotionEventTarget>(self, target: Target) -> (r: bool)
        ensures
            r == target.spec_matches(self),
    {
        target.matches(self)
    }

    /// Returns whether this is a completed event for `target`.
    pub fn is_completed_for<Target: MotionEventTarget>(self, target: Target) -> (r: bool)
        ensures
            r == (self.spec_kind() == MotionEventKind::Completed && target.spec_matches(self)),
    {
        let completed = match self.kind {
            MotionEventKind::Completed => true,
            _ => false,
        };
        completed && target.matches(self)
    }

    /// Returns whether this is a canceled event for `target`.
    pub fn is_canceled_for<Target: MotionEventTarget>(self, target: Target) -> (r: bool)
        ensures
            r == (self.spec_kind() == MotionEventKind::Canceled && target.spec_matches(self)),
    {
        let canceled = match self.kind {
            MotionEventKind::Canceled => true,
            _ => false,
        };
        canceled && target.matches(self)
    }
}

/// A motion or playback that can be matched against a [`MotionEvent`].
pub trait MotionEventTarget: Sealed + Sized {
    /// Whether this target names the motion or playback of `event`.
    spec fn spec_matches(self, event: MotionEvent) -> bool;

    /// Returns whether this target matches `event`.
    fn matches(self, event: MotionEvent) -> (r: bool)
        ensures
            r == self.spec_matches(event),
    ;
}

impl<T> MotionEventTarget for Motion<T> {
    open spec fn spec_matches(self, event: MotionEvent) -> bool {
        self.spec_id() == event.spec_motion()
    }

    fn matches(self, event: MotionEvent) -> (r: bool) {
        let id = self.motion_id();
        id.slot() == event.motion.slot() && id.generation() == event.motion.generation()
    }
}

impl MotionEventTarget for MotionId {
    open spec fn spec_matches(self, event: MotionEvent) -> bool {
        self == event.spec_motion()
    }

    fn matches(self, event: MotionEvent) -> (r: bool) {
        self.slot == event.motion.slot && self.generation == event.motion.generation
    }
}

impl MotionEventTarget for PlaybackId {
    open spec fn spec_matches(self, event: MotionEvent) -> bool {
        self == event.spec_playback()
    }

    fn matches(self, event: MotionEvent) -> (r: bool) {
        self.motion.slot == event.playback.motion.slot && self.motion.generation
            == event.playback.motion.generation && self.revision == event.playback.revision
    }
}

} // verus!
