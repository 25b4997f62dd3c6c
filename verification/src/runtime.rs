//! Runtime storage, typed handles, and animation commands.

pub mod anim_dyn;
pub mod command;
pub mod error;
pub mod event;
pub mod motion;
pub(crate) mod instant;
pub mod lifecycle;
mod private;
pub mod settled;
pub mod typed;

use vstd::prelude::*;

use crate::runtime::anim_dyn::{AnimationDyn, TransitionSource};
use crate::runtime::instant::{
    instant_gap, saturating_duration_since, std_duration_secs, std_duration_subsec_nanos, vec_capacity,
    vec_shrink_to_fit,
};
use crate::timing::duration::NANOS_PER_SEC;
use crate::runtime::error::MotionError;
use crate::runtime::event::{
    InterruptionReason, MotionEvent, MotionEventKind, MotionId, PlaybackId, RemovalReason,
};
use crate::runtime::motion::Motion;
use crate::runtime::typed::{AnimationStorage, MotionSource, TypedAnimation};
use crate::runtime::lifecycle::{lemma_events_are_appended, lemma_removal_appends, lemma_settled_with_appends};
use crate::timing::{Duration, Timing};
use crate::traits::AnimationState;

verus! {

broadcast use {
    MotionId::lemma_new,
    PlaybackId::lemma_new,
    MotionEvent::lemma_new,
};

/// Controls whether the runtime retains an animation after it settles.
#[derive(Debug, Clone, Copy, PartialEq, Eq, Default, Structural)]
pub enum RetainPolicy {
    /// Keep the animation and its final value until explicitly removed.
    #[default]
    Keep,
    /// Remove the animation after it completes or is canceled.
    DropWhenSettled,
}

/// One storage slot of a runtime.
pub struct AnimationSlot<A> {
    /// Incremented (wrapping) each time the slot is reused.
    pub generation: u64,
    /// Incremented (wrapping) each time the slot's playback is replaced.
    pub playback_revision: u64,
    /// Whether the current playback already produced its ending event.
    pub terminal_emitted: bool,
    /// Timing used for transitions toward new targets.
    pub transition: Timing,
    /// Whether the animation is dropped once it settles.
    pub retain_policy: RetainPolicy,
    /// The stored animation; `None` once removed.
    pub animation: Option<A>,
    /// Whether the slot is counted as active.
    pub active: bool,
    /// Whether the slot's ID was placed in the tick queue.
    pub queued: bool,
}

/// The abstract state of a [`MotionRuntime`].
pub ghost struct RuntimeView<A> {
    /// Slot storage.
    pub slots: Seq<AnimationSlot<A>>,
    /// Indices of slots available for reuse; the last one is reused first.
    pub free: Seq<usize>,
    /// IDs scheduled for the next tick.
    pub queue: Seq<MotionId>,
    /// Queued lifecycle events, oldest first.
    pub events: Seq<MotionEvent>,
    /// Counter of active slots.
    pub active_count: nat,
    /// Counter of stored animations.
    pub motion_count: nat,
    /// The instant of the last `tick_at` since the runtime was last idle.
    pub last_tick: Option<std::time::Instant>,
    /// For each slot index that storage shrinking dropped, the last generation it had.
    pub retired: Seq<u64>,
}

/// The number of slots of `s` that satisfy `p`.
pub open spec fn count_slots<A>(s: Seq<AnimationSlot<A>>, p: spec_fn(AnimationSlot<A>) -> bool) -> nat
    decreases s.len(),
{
    if s.len() == 0 {
        0
    } else {
        count_slots(s.drop_last(), p) + if p(s.last()) {
            1nat
        } else {
            0nat
        }
    }
}

/// Whether a slot is counted as active.
pub open spec fn slot_active<A>() -> spec_fn(AnimationSlot<A>) -> bool {
    |s: AnimationSlot<A>| s.active
}

/// Whether a slot stores an animation.
pub open spec fn slot_occupied<A>() -> spec_fn(AnimationSlot<A>) -> bool {
    |s: AnimationSlot<A>| s.animation is Some
}

/// Replacing one slot changes a count by the difference of the two slots.
pub proof fn lemma_count_update<A>(
    s: Seq<AnimationSlot<A>>,
    i: int,
    x: AnimationSlot<A>,
    p: spec_fn(AnimationSlot<A>) -> bool,
)
    requires
        0 <= i < s.len(),
    ensures
        count_slots(s.update(i, x), p) + (if p(s[i]) {
            1nat
        } else {
            0nat
        }) == count_slots(s, p) + (if p(x) {
            1nat
        } else {
            0nat
        }),
    decreases s.len(),
{
    if i == s.len() - 1 {
        assert(s.update(i, x).drop_last() =~= s.drop_last());
    } else {
        lemma_count_update(s.drop_last(), i, x, p);
        assert(s.update(i, x).drop_last() =~= s.drop_last().update(i, x));
    }
}

/// A count never exceeds the number of slots.
pub proof fn lemma_count_bound<A>(s: Seq<AnimationSlot<A>>, p: spec_fn(AnimationSlot<A>) -> bool)
    ensures
        count_slots(s, p) <= s.len(),
    decreases s.len(),
{
    if s.len() > 0 {
        lemma_count_bound(s.drop_last(), p);
    }
}

/// A slot that satisfies `p` makes the count positive.
pub proof fn lemma_count_positive<A>(
    s: Seq<AnimationSlot<A>>,
    i: int,
    p: spec_fn(AnimationSlot<A>) -> bool,
)
    requires
        0 <= i < s.len(),
        p(s[i]),
    ensures
        count_slots(s, p) > 0,
    decreases s.len(),
{
    if i < s.len() - 1 {
        lemma_count_positive(s.drop_last(), i, p);
    }
}

/// With no slot satisfying `p`, the count is zero.
pub proof fn lemma_count_zero<A>(s: Seq<AnimationSlot<A>>, p: spec_fn(AnimationSlot<A>) -> bool)
    requires
        forall|i: int| 0 <= i < s.len() ==> !p(#[trigger] s[i]),
    ensures
        count_slots(s, p) == 0,
    decreases s.len(),
{
    if s.len() > 0 {
        assert(!p(s[s.len() - 1]));
        lemma_count_zero(s.drop_last(), p);
    }
}

/// Whether a slot index lies below `len`.
pub open spec fn index_below(len: nat) -> spec_fn(usize) -> bool {
    |i: usize| i < len
}

impl<A> RuntimeView<A> {
    /// Whether a wall-clock origin is recorded for `tick_at`.
    pub open spec fn clock_set(self) -> bool {
        self.last_tick is Some
    }

    /// Why `id` does not name a stored animation, if it does not.
    pub open spec fn lookup(self, id: MotionId) -> Result<(), MotionError> {
        let slot = id.spec_slot();
        if slot >= self.slots.len() {
            Err(MotionError::SlotOutOfBounds { slot })
        } else if self.slots[slot as int].generation != id.spec_generation() {
            Err(
                MotionError::StaleHandle {
                    slot,
                    handle_generation: id.spec_generation(),
                    actual_generation: self.slots[slot as int].generation,
                },
            )
        } else if self.slots[slot as int].animation is None {
            Err(MotionError::Removed { slot })
        } else {
            Ok(())
        }
    }

    /// The slot that `id` names.
    pub open spec fn slot_of(self, id: MotionId) -> AnimationSlot<A> {
        self.slots[id.spec_slot() as int]
    }

    /// The animation stored for `id`, which must name a stored animation.
    pub open spec fn animation_of(self, id: MotionId) -> A {
        self.slot_of(id).animation.unwrap()
    }

    /// The current playback of the slot that `id` names.
    pub open spec fn current_playback(self, id: MotionId) -> PlaybackId {
        PlaybackId::spec_new(id, self.slot_of(id).playback_revision)
    }

    /// The events that a tick may report: completion, cancelation and settled removal.
    pub open spec fn is_tick_event(kind: MotionEventKind) -> bool {
        kind == MotionEventKind::Completed || kind == MotionEventKind::Canceled || kind
            == MotionEventKind::Removed(RemovalReason::Settled)
    }

    /// What a tick preserves: storage size, generations, revisions, the event
    /// history (only extended by tick events), slots that were not active, and
    /// that no animation is added.
    pub open spec fn tick_frame(self, after: Self) -> bool {
        &&& after.slots.len() == self.slots.len()
        &&& self.events.is_prefix_of(after.events)
        &&& forall|k: int|
            self.events.len() <= k < after.events.len() ==> Self::is_tick_event(
                #[trigger] after.events[k].spec_kind(),
            )
        &&& forall|i: int|
            0 <= i < self.slots.len() ==> {
                &&& (#[trigger] after.slots[i]).generation == self.slots[i].generation
                &&& after.slots[i].playback_revision == self.slots[i].playback_revision
                &&& after.slots[i].animation is Some ==> self.slots[i].animation is Some
                &&& !self.slots[i].active ==> after.slots[i].animation == self.slots[i].animation
                    && !after.slots[i].active
            }
    }

    /// The current ID of slot `i`.
    pub open spec fn id_at(self, i: int) -> MotionId {
        MotionId::spec_new(i as usize, self.slots[i].generation)
    }

    /// Slots whose current ID is not scheduled are left as they were.
    pub open spec fn keeps_unscheduled(self, after: Self) -> bool {
        forall|i: int|
            0 <= i < self.slots.len() && !self.queue.contains(self.id_at(i)) ==> #[trigger] after.slots[i]
                == self.slots[i]
    }

    /// Scheduled slots that are still active stay scheduled.
    pub open spec fn reschedules_active(self, after: Self) -> bool {
        forall|i: int|
            0 <= i < self.slots.len() && self.slots[i].active && self.queue.contains(self.id_at(i))
                && (#[trigger] after.slots[i]).active ==> after.queue.contains(after.id_at(i))
    }

    /// The runtime with its event queue emptied.
    pub open spec fn without_events(self) -> Self {
        RuntimeView { events: Seq::empty(), ..self }
    }

    /// The runtime with slot `i` replaced.
    pub open spec fn with_slot(self, i: int, slot: AnimationSlot<A>) -> Self {
        RuntimeView { slots: self.slots.update(i, slot), ..self }
    }

    /// The slot storage, counters and free list agree.
    pub open spec fn wf(self) -> bool {
        &&& self.active_count == count_slots(self.slots, slot_active())
        &&& self.motion_count == count_slots(self.slots, slot_occupied())
        &&& forall|i: int|
            0 <= i < self.slots.len() && (#[trigger] self.slots[i]).active
                ==> self.slots[i].animation is Some
        &&& forall|k: int|
            0 <= k < self.free.len() ==> (#[trigger] self.free[k]) < self.slots.len()
                && self.slots[self.free[k] as int].animation is None
        &&& forall|i: int|
            0 <= i < self.slots.len() && (#[trigger] self.slots[i]).animation is None
                ==> self.free.contains(i as usize)
        &&& self.free.no_duplicates()
        &&& self.retired.len() >= self.slots.len()
        &&& self.slots.len() <= usize::MAX
    }

    /// Whether queue entry `e` names the current ID of a queued slot.
    pub open spec fn names_queued(self, e: MotionId) -> bool {
        &&& e.spec_slot() < self.slots.len()
        &&& self.slots[e.spec_slot() as int].generation == e.spec_generation()
        &&& self.slots[e.spec_slot() as int].queued
    }

    /// The tick queue holds, once each, exactly the current IDs of the queued
    /// slots; every active slot is queued, and every queued slot holds an animation.
    pub open spec fn schedule_wf(self) -> bool {
        &&& self.queue.no_duplicates()
        &&& forall|k: int| 0 <= k < self.queue.len() ==> self.names_queued(#[trigger] self.queue[k])
        &&& forall|i: int|
            0 <= i < self.slots.len() && (#[trigger] self.slots[i]).queued ==> self.queue.contains(
                self.id_at(i),
            ) && self.slots[i].animation is Some
        &&& forall|i: int| 0 <= i < self.slots.len() && (#[trigger] self.slots[i]).active ==> self.slots[i].queued
    }

    /// Starts a new playback of `id`: the revision advances and no ending event is recorded yet.
    pub open spec fn start_playback(self, id: MotionId) -> Self {
        let slot = self.slot_of(id);
        self.with_slot(
            id.spec_slot() as int,
            AnimationSlot {
                playback_revision: Self::next_revision(slot.playback_revision),
                terminal_emitted: false,
                ..slot
            },
        )
    }

    /// The revision that follows `revision`, wrapping at the end of the range.
    pub open spec fn next_revision(revision: u64) -> u64 {
        if revision == u64::MAX {
            0
        } else {
            (revision + 1) as u64
        }
    }

    /// Records the ending event for a settled playback of `id`, once per playback.
    pub open spec fn record_terminal(self, id: MotionId, state: AnimationState) -> Self {
        let slot = self.slot_of(id);
        if !state.is_settled() || slot.generation != id.spec_generation() || slot.terminal_emitted {
            self
        } else {
            let kind = if state == AnimationState::Completed {
                MotionEventKind::Completed
            } else {
                MotionEventKind::Canceled
            };
            RuntimeView {
                slots: self.slots.update(
                    id.spec_slot() as int,
                    AnimationSlot { terminal_emitted: true, ..slot },
                ),
                events: self.events.push(
                    MotionEvent::spec_new(
                        PlaybackId::spec_new(id, slot.playback_revision),
                        kind,
                    ),
                ),
                ..self
            }
        }
    }

    /// Records that an unfinished playback of `id` stopped for `reason`, once per playback.
    pub open spec fn record_interruption(
        self,
        id: MotionId,
        state: AnimationState,
        reason: InterruptionReason,
    ) -> Self {
        let slot = self.slot_of(id);
        if !state.is_unfinished() || slot.generation != id.spec_generation()
            || slot.terminal_emitted {
            self
        } else {
            RuntimeView {
                slots: self.slots.update(
                    id.spec_slot() as int,
                    AnimationSlot { terminal_emitted: true, ..slot },
                ),
                events: self.events.push(
                    MotionEvent::spec_new(
                        PlaybackId::spec_new(id, slot.playback_revision),
                        MotionEventKind::Interrupted(reason),
                    ),
                ),
                ..self
            }
        }
    }

    /// Marks `id` active and schedules it for the next tick.
    pub open spec fn activate(self, id: MotionId) -> Self {
        let i = id.spec_slot() as int;
        if i >= self.slots.len() || self.slots[i].generation != id.spec_generation()
            || self.slots[i].animation is None {
            self
        } else {
            let slot = self.slots[i];
            let last_tick = if self.active_count == 0 {
                None
            } else {
                self.last_tick
            };
            RuntimeView {
                slots: self.slots.update(i, AnimationSlot { active: true, queued: true, ..slot }),
                active_count: if slot.active {
                    self.active_count
                } else {
                    self.active_count + 1
                },
                queue: if slot.queued {
                    self.queue
                } else {
                    self.queue.push(id)
                },
                last_tick,
                ..self
            }
        }
    }

    /// Clears the queued flag of every slot that a queue entry names.
    pub open spec fn unqueue_all(slots: Seq<AnimationSlot<A>>, queue: Seq<MotionId>) -> Seq<
        AnimationSlot<A>,
    > {
        Seq::new(
            slots.len(),
            |i: int|
                if queue.contains(MotionId::spec_new(i as usize, slots[i].generation)) {
                    AnimationSlot { queued: false, ..slots[i] }
                } else {
                    slots[i]
                },
        )
    }

    /// Marks `id` inactive; once nothing is active the tick queue and clock are cleared.
    pub open spec fn deactivate(self, id: MotionId) -> Self {
        let i = id.spec_slot() as int;
        if i >= self.slots.len() || self.slots[i].generation != id.spec_generation()
            || !self.slots[i].active {
            self
        } else {
            let slots = self.slots.update(i, AnimationSlot { active: false, ..self.slots[i] });
            let active_count = (self.active_count - 1) as nat;
            if active_count == 0 {
                RuntimeView {
                    slots: Self::unqueue_all(slots, self.queue),
                    active_count,
                    queue: Seq::empty(),
                    last_tick: None,
                    ..self
                }
            } else {
                RuntimeView { slots, active_count, ..self }
            }
        }
    }

    /// Empties the slot of `id`, frees it and records the removal; the tick queue
    /// is left as it is.
    pub open spec fn drop_slot(self, id: MotionId, reason: RemovalReason) -> Self {
        let i = id.spec_slot() as int;
        let slot = self.slots[i];
        let active_count = if slot.active {
            (self.active_count - 1) as nat
        } else {
            self.active_count
        };
        RuntimeView {
            slots: self.slots.update(
                i,
                AnimationSlot { animation: None, active: false, queued: false, ..slot },
            ),
            free: self.free.push(id.spec_slot()),
            events: self.events.push(
                MotionEvent::spec_new(self.current_playback(id), MotionEventKind::Removed(reason)),
            ),
            active_count,
            motion_count: (self.motion_count - 1) as nat,
            ..self
        }
    }

    /// Once nothing is active, the tick queue and clock are cleared and no slot
    /// stays queued.
    pub open spec fn idle_schedule(self) -> Self {
        if self.active_count == 0 {
            RuntimeView {
                slots: Self::unqueue_all(self.slots, self.queue),
                queue: Seq::empty(),
                last_tick: None,
                ..self
            }
        } else {
            self
        }
    }

    /// Takes the entry of `id` out of the tick queue and clears the queued flag of
    /// its slot.
    pub open spec fn unschedule(self, id: MotionId) -> Self {
        if self.queue.contains(id) {
            let k = choose|k: int| 0 <= k < self.queue.len() && self.queue[k] == id;
            let i = id.spec_slot() as int;
            RuntimeView {
                queue: self.queue.remove(k),
                slots: self.slots.update(i, AnimationSlot { queued: false, ..self.slots[i] }),
                ..self
            }
        } else {
            self
        }
    }

    /// Removes the animation of `id`: its queue entry goes, its slot is freed and
    /// the removal recorded, and the schedule is cleared once nothing is active.
    pub open spec fn remove_slot(self, id: MotionId, reason: RemovalReason) -> Self {
        self.unschedule(id).drop_slot(id, reason).idle_schedule()
    }
}

/// Two slot sequences that agree on `p` everywhere have the same count.
pub proof fn lemma_count_ext<A>(
    s1: Seq<AnimationSlot<A>>,
    s2: Seq<AnimationSlot<A>>,
    p: spec_fn(AnimationSlot<A>) -> bool,
)
    requires
        s1.len() == s2.len(),
        forall|i: int| 0 <= i < s1.len() ==> p(#[trigger] s1[i]) == p(s2[i]),
    ensures
        count_slots(s1, p) == count_slots(s2, p),
    decreases s1.len(),
{
    if s1.len() > 0 {
        assert(p(s1[s1.len() - 1]) == p(s2[s1.len() - 1]));
        lemma_count_ext(s1.drop_last(), s2.drop_last(), p);
    }
}

impl<A: AnimationDyn> RuntimeView<A> {
    /// The runtime with the animation of `id` replaced by `animation`.
    pub open spec fn with_animation(self, id: MotionId, animation: A) -> Self {
        self.with_slot(
            id.spec_slot() as int,
            AnimationSlot { animation: Some(animation), ..self.slot_of(id) },
        )
    }

    /// Slots that stopped being active were settled: dropped, or their ending recorded
    /// when they completed or were canceled.
    pub open spec fn settles_stopped(self, after: Self) -> bool {
        forall|i: int|
            0 <= i < self.slots.len() && self.slots[i].active && !(#[trigger] after.slots[i]).active
                ==> after.slots[i].animation is None || (after.slots[i].animation->Some_0.spec_state().is_settled()
                ==> after.slots[i].terminal_emitted)
    }

    /// Slot `i` is counted active exactly when its stored animation is active.
    pub open spec fn slot_consistent(self, i: int) -> bool {
        self.slots[i].animation is Some ==> self.slots[i].active
            == self.slots[i].animation->Some_0.spec_active()
    }

    /// Every slot is counted active exactly when its stored animation is active.
    pub open spec fn activity_consistent(self) -> bool {
        forall|i: int| 0 <= i < self.slots.len() ==> #[trigger] self.slot_consistent(i)
    }

    /// Every slot but the one `id` names is counted active exactly when its
    /// stored animation is active.
    pub open spec fn consistent_except(self, id: MotionId) -> bool {
        forall|i: int|
            0 <= i < self.slots.len() && i != id.spec_slot() ==> #[trigger] self.slot_consistent(i)
    }

    /// The state of the animation stored for `id`.
    pub open spec fn state_of(self, id: MotionId) -> AnimationState {
        self.animation_of(id).spec_state()
    }

    /// What reading the state of `id` gives: its state, or the lookup error.
    pub open spec fn state_result(self, id: MotionId) -> Result<AnimationState, MotionError> {
        match self.lookup(id) {
            Ok(()) => Ok(self.state_of(id)),
            Err(e) => Err(e),
        }
    }

    /// The runtime after `id` switched to `animation` and the runtime settled it:
    /// for some compacted animation `c` with the same state.
    pub open spec fn settled_with(self, id: MotionId, animation: A, result: Self) -> bool {
        exists|c: A|
            c.spec_state() == animation.spec_state() && c.spec_current_value() == animation.spec_current_value() && c.spec_active() == animation.spec_active() && result == self.with_animation(
                id,
                animation,
            ).settle(id, animation.spec_active(), animation.spec_state(), c)
    }

    /// The runtime after `command` was applied to the animation of `id` and the
    /// runtime settled the result.
    pub open spec fn commanded_to(self, id: MotionId, command: A::Command, after: Self) -> bool {
        exists|commanded: A|
            self.animation_of(id).spec_commanded(command, commanded) && #[trigger] self.settled_with(
                id,
                commanded,
                after,
            )
    }

    /// The ID that the next inserted animation receives: the most recently freed
    /// slot with its generation advanced, or a new slot whose generation follows the
    /// one it had before storage shrinking dropped it, or zero for a never-used index.
    pub open spec fn next_id(self) -> MotionId {
        if self.free.len() > 0 {
            let i = self.free.last();
            MotionId::spec_new(i, Self::next_revision(self.slots[i as int].generation))
        } else if self.slots.len() < self.retired.len() {
            MotionId::spec_new(
                self.slots.len() as usize,
                Self::next_revision(self.retired[self.slots.len() as int]),
            )
        } else {
            MotionId::spec_new(self.slots.len() as usize, 0)
        }
    }

    /// The runtime after storing `animation` at [`RuntimeView::next_id`], before it is settled.
    pub open spec fn insert_slot(self, animation: A, transition: Timing, retain_policy: RetainPolicy) -> Self {
        let id = self.next_id();
        let slot = AnimationSlot {
            generation: id.spec_generation(),
            playback_revision: 0,
            terminal_emitted: false,
            transition,
            retain_policy,
            animation: Some(animation),
            active: false,
            queued: false,
        };
        if self.free.len() > 0 {
            RuntimeView {
                slots: self.slots.update(id.spec_slot() as int, slot),
                free: self.free.drop_last(),
                motion_count: self.motion_count + 1,
                ..self
            }
        } else {
            RuntimeView {
                slots: self.slots.push(slot),
                motion_count: self.motion_count + 1,
                retired: if self.slots.len() < self.retired.len() {
                    self.retired
                } else {
                    self.retired.push(0)
                },
                ..self
            }
        }
    }

    /// The bookkeeping after the animation of `id` changed: an active animation is
    /// scheduled; otherwise its ending event is recorded and it is either dropped
    /// (when settled under `DropWhenSettled`) or kept as `compacted`.
    pub open spec fn settle(
        self,
        id: MotionId,
        active: bool,
        state: AnimationState,
        compacted: A,
    ) -> Self {
        if active {
            self.activate(id)
        } else {
            let v = self.deactivate(id).record_terminal(id, state);
            if v.slot_of(id).retain_policy == RetainPolicy::DropWhenSettled && state.is_settled() {
                v.remove_slot(id, RemovalReason::Settled)
            } else {
                v.with_slot(
                    id.spec_slot() as int,
                    AnimationSlot { animation: Some(compacted), ..v.slot_of(id) },
                )
            }
        }
    }
}

impl<A: AnimationDyn> RuntimeView<A> {
    /// Whether `id` appears exactly once in `queue`.
    pub open spec fn scheduled_once(queue: Seq<MotionId>, id: MotionId) -> bool {
        &&& queue.contains(id)
        &&& forall|j: int, k: int|
            0 <= j < queue.len() && 0 <= k < queue.len() && #[trigger] queue[j] == id && #[trigger] queue[k]
                == id ==> j == k
    }

    /// How a tick leaves an active slot: its animation was advanced by `delta` to
    /// some `advanced`. The slot stays active and scheduled when `advanced` is
    /// active. Otherwise it is no longer active, its ending is recorded once when
    /// it settled, and it is dropped when it settled under `DropWhenSettled`, or
    /// else keeps a compacted animation with the same state and value.
    pub open spec fn ticked_slot(before: AnimationSlot<A>, delta: Duration, after: AnimationSlot<A>) -> bool {
        exists|advanced: A|
            #[trigger] before.animation->Some_0.spec_advanced(delta, advanced) && if advanced.spec_active() {
                after == AnimationSlot { animation: Some(advanced), queued: true, ..before }
            } else {
                let settled = advanced.spec_state().is_settled();
                &&& !after.active
                &&& !after.queued
                &&& after.generation == before.generation
                &&& after.playback_revision == before.playback_revision
                &&& after.transition == before.transition
                &&& after.retain_policy == before.retain_policy
                &&& after.terminal_emitted == (before.terminal_emitted || settled)
                &&& if settled && before.retain_policy == RetainPolicy::DropWhenSettled {
                    after.animation is None
                } else {
                    &&& after.animation is Some
                    &&& after.animation->Some_0.spec_state() == advanced.spec_state()
                    &&& after.animation->Some_0.spec_current_value() == advanced.spec_current_value()
                }
            }
    }

    /// What processing the queue entry of slot `i` does to it during a tick.
    pub open spec fn processed_slot(before: AnimationSlot<A>, delta: Duration, after: AnimationSlot<A>) -> bool {
        if before.active {
            Self::ticked_slot(before, delta, after)
        } else {
            after == AnimationSlot { queued: false, ..before }
        }
    }

    /// After processing the first `seen` queue entries of a tick that started at
    /// `self`, every slot scheduled exactly once is either untouched (not reached
    /// yet) or processed.
    pub open spec fn tick_progress(self, seen: int, delta: Duration, now: Self) -> bool {
        forall|i: int|
            0 <= i < self.slots.len() && #[trigger] Self::scheduled_once(self.queue, self.id_at(i)) ==> {
                let reached = exists|k: int| 0 <= k < seen && self.queue[k] == self.id_at(i);
                &&& !reached ==> now.slots[i] == self.slots[i]
                &&& reached ==> Self::processed_slot(self.slots[i], delta, now.slots[i])
            }
    }

    /// Whether `event` belongs to the current playback of a slot that was active in
    /// `self` and is no longer active in `after`.
    pub open spec fn stopped_slot_event(self, after: Self, event: MotionEvent) -> bool {
        exists|i: int|
            0 <= i < self.slots.len() && self.slots[i].active && !(#[trigger] after.slots[i]).active
                && event.spec_playback() == self.current_playback(self.id_at(i))
    }

    /// The events a tick adds: each belongs to a slot that stopped; a slot that
    /// recorded its ending reported completion or cancelation for its current
    /// playback, and a slot that lost its animation reported its settled removal.
    pub open spec fn tick_events(self, after: Self) -> bool {
        &&& forall|k: int|
            self.events.len() <= k < after.events.len() ==> self.stopped_slot_event(
                after,
                #[trigger] after.events[k],
            )
        &&& forall|i: int|
            0 <= i < self.slots.len() && self.slots[i].active && !self.slots[i].terminal_emitted
                && (#[trigger] after.slots[i]).terminal_emitted ==> exists|k: int|
                self.events.len() <= k < after.events.len() && (#[trigger] after.events[k]).spec_playback()
                    == self.current_playback(self.id_at(i)) && (after.events[k].spec_kind()
                    == MotionEventKind::Completed || after.events[k].spec_kind() == MotionEventKind::Canceled)
        &&& forall|i: int|
            0 <= i < self.slots.len() && self.slots[i].animation is Some && (
            #[trigger] after.slots[i]).animation is None ==> exists|k: int|
                self.events.len() <= k < after.events.len() && #[trigger] after.events[k]
                    == MotionEvent::spec_new(
                    self.current_playback(self.id_at(i)),
                    MotionEventKind::Removed(RemovalReason::Settled),
                )
    }

    /// Every slot that was active before a tick by `delta` was advanced and
    /// settled as [`RuntimeView::ticked_slot`] says.
    pub open spec fn ticks_active(self, delta: Duration, after: Self) -> bool {
        forall|i: int|
            0 <= i < self.slots.len() && (#[trigger] self.slots[i]).active ==> Self::ticked_slot(
                self.slots[i],
                delta,
                after.slots[i],
            )
    }

    /// An active slot of a runtime whose schedule is well formed has its current
    /// ID in the tick queue exactly once.
    pub proof fn lemma_active_scheduled_once(self, i: int)
        requires
            self.schedule_wf(),
            0 <= i < self.slots.len(),
            self.slots[i].active,
        ensures
            Self::scheduled_once(self.queue, self.id_at(i)),
    {
        assert(self.queue.contains(self.id_at(i)));
    }

    /// A tick that handles every slot scheduled once ticks every active slot.
    pub proof fn lemma_ticks_active(self, delta: Duration, after: Self)
        requires
            self.schedule_wf(),
            self.ticks_scheduled(delta, after),
        ensures
            self.ticks_active(delta, after),
    {
        assert forall|i: int| 0 <= i < self.slots.len() && (#[trigger] self.slots[i]).active implies Self::ticked_slot(
            self.slots[i],
            delta,
            after.slots[i],
        ) by {
            self.lemma_active_scheduled_once(i);
        }
    }

    /// What a tick by `delta` does to the slots whose current ID is scheduled
    /// exactly once: an active one is advanced and settled as
    /// [`RuntimeView::ticked_slot`] says; an inactive one keeps everything but its
    /// queued flag.
    pub open spec fn ticks_scheduled(self, delta: Duration, after: Self) -> bool {
        forall|i: int|
            0 <= i < self.slots.len() && #[trigger] Self::scheduled_once(self.queue, self.id_at(i)) ==> {
                &&& self.slots[i].active ==> Self::ticked_slot(self.slots[i], delta, after.slots[i])
                &&& !self.slots[i].active ==> after.slots[i] == AnimationSlot {
                    queued: after.slots[i].queued,
                    ..self.slots[i]
                }
            }
    }
}

impl<A: AnimationDyn> RuntimeView<A> {
    /// A slot whose only queue entry is the one being processed was not reached before.
    proof fn lemma_tick_unreached(self, index: int, delta: Duration, before: Self, s: int)
        requires
            1 <= index <= self.queue.len(),
            self.tick_progress(index - 1, delta, before),
            0 <= s < self.slots.len(),
            self.queue[index - 1] == self.id_at(s),
            Self::scheduled_once(self.queue, self.id_at(s)),
        ensures
            before.slots[s] == self.slots[s],
    {
        if exists|k: int| 0 <= k < index - 1 && self.queue[k] == self.id_at(s) {
            let k = choose|k: int| 0 <= k < index - 1 && self.queue[k] == self.id_at(s);
            assert(self.queue[k] == self.id_at(s) && self.queue[index - 1] == self.id_at(s));
        }
    }

    /// Processing one more queue entry, which changes at most the slot it names,
    /// extends the progress of a tick.
    proof fn lemma_tick_progress_step(self, index: int, delta: Duration, before: Self, after: Self, s: int)
        requires
            1 <= index <= self.queue.len(),
            self.slots.len() <= usize::MAX,
            self.queue[index - 1].spec_slot() == s,
            self.tick_progress(index - 1, delta, before),
            before.slots.len() == self.slots.len(),
            after.slots.len() == self.slots.len(),
            forall|j: int|
                0 <= j < self.slots.len() && !(j == s && self.queue[index - 1] == self.id_at(j))
                    ==> #[trigger] after.slots[j] == before.slots[j],
            0 <= s < self.slots.len() && self.queue[index - 1] == self.id_at(s)
                && Self::scheduled_once(self.queue, self.id_at(s)) ==> Self::processed_slot(
                self.slots[s],
                delta,
                after.slots[s],
            ),
        ensures
            self.tick_progress(index, delta, after),
    {
        assert forall|i: int|
            0 <= i < self.slots.len() && #[trigger] Self::scheduled_once(self.queue, self.id_at(i)) implies {
                let reached = exists|k: int| 0 <= k < index && self.queue[k] == self.id_at(i);
                &&& !reached ==> after.slots[i] == self.slots[i]
                &&& reached ==> Self::processed_slot(self.slots[i], delta, after.slots[i])
            } by {
            let hit = self.queue[index - 1] == self.id_at(i);
            if hit {
                assert(i == s) by {
                    assert(self.id_at(i).spec_slot() == i);
                }
                assert(exists|k: int| 0 <= k < index && self.queue[k] == self.id_at(i)) by {
                    assert(self.queue[index - 1] == self.id_at(i));
                }
            } else {
                assert(after.slots[i] == before.slots[i]);
                if exists|k: int| 0 <= k < index && self.queue[k] == self.id_at(i) {
                    let k = choose|k: int| 0 <= k < index && self.queue[k] == self.id_at(i);
                    assert(k < index - 1);
                }
            }
        }
    }

    /// A step that adds no event and keeps every slot's activity, ending flag and
    /// occupancy keeps the events of a tick accounted for.
    proof fn lemma_tick_events_same(self, start: Self, after: Self)
        requires
            self.tick_events(start),
            after.events == start.events,
            after.slots.len() == start.slots.len(),
            start.slots.len() == self.slots.len(),
            forall|i: int|
                0 <= i < start.slots.len() ==> {
                    &&& (#[trigger] after.slots[i]).active == start.slots[i].active
                    &&& after.slots[i].terminal_emitted == start.slots[i].terminal_emitted
                    &&& (after.slots[i].animation is None) == (start.slots[i].animation is None)
                },
        ensures
            self.tick_events(after),
    {
        assert forall|k: int| self.events.len() <= k < after.events.len() implies self.stopped_slot_event(
            after,
            #[trigger] after.events[k],
        ) by {
            assert(self.stopped_slot_event(start, start.events[k]));
            let i = choose|i: int|
                0 <= i < self.slots.len() && self.slots[i].active && !(#[trigger] start.slots[i]).active
                    && start.events[k].spec_playback() == self.current_playback(self.id_at(i));
            assert(!after.slots[i].active);
        }
        assert forall|i: int|
            0 <= i < self.slots.len() && self.slots[i].active && !self.slots[i].terminal_emitted
                && (#[trigger] after.slots[i]).terminal_emitted implies exists|k: int|
                self.events.len() <= k < after.events.len() && (#[trigger] after.events[k]).spec_playback()
                    == self.current_playback(self.id_at(i)) && (after.events[k].spec_kind()
                    == MotionEventKind::Completed || after.events[k].spec_kind() == MotionEventKind::Canceled) by {
            assert(start.slots[i].terminal_emitted);
        }
        assert forall|i: int|
            0 <= i < self.slots.len() && self.slots[i].animation is Some && (
            #[trigger] after.slots[i]).animation is None implies exists|k: int|
                self.events.len() <= k < after.events.len() && #[trigger] after.events[k]
                    == MotionEvent::spec_new(
                    self.current_playback(self.id_at(i)),
                    MotionEventKind::Removed(RemovalReason::Settled),
                ) by {
            assert(start.slots[i].animation is None);
        }
    }

    /// Stopping the active slot `s` in a tick, recording its ending and maybe
    /// dropping it, keeps the events of the tick accounted for.
    proof fn lemma_tick_events_stop(
        self,
        start: Self,
        mid: Self,
        recorded: Self,
        after: Self,
        id: MotionId,
        s: int,
        state: AnimationState,
        dropped: bool,
    )
        requires
            self.tick_events(start),
            self.events.is_prefix_of(start.events),
            self.slots.len() <= usize::MAX,
            0 <= s < self.slots.len(),
            id == self.id_at(s),
            self.slots[s].active,
            start.slots.len() == self.slots.len(),
            mid.slots.len() == self.slots.len(),
            recorded == mid.record_terminal(id, state),
            mid.events == start.events,
            mid.slots[s].generation == id.spec_generation(),
            mid.slots[s].playback_revision == self.slots[s].playback_revision,
            !mid.slots[s].active,
            start.slots[s].active,
            start.slots[s].terminal_emitted == self.slots[s].terminal_emitted,
            mid.slots[s].terminal_emitted == start.slots[s].terminal_emitted,
            forall|j: int| 0 <= j < self.slots.len() && j != s ==> #[trigger] mid.slots[j] == start.slots[j],
            dropped ==> after == recorded.drop_slot(id, RemovalReason::Settled),
            !dropped ==> after.events == recorded.events && after.slots.len() == recorded.slots.len()
                && after.slots[s].terminal_emitted == recorded.slots[s].terminal_emitted
                && !after.slots[s].active && after.slots[s].animation is Some && forall|j: int|
                0 <= j < self.slots.len() && j != s ==> #[trigger] after.slots[j] == recorded.slots[j],
        ensures
            self.tick_events(after),
    {
        let pb = self.current_playback(id);
        assert(pb == PlaybackId::spec_new(id, self.slots[s].playback_revision));
        assert(start.events.is_prefix_of(after.events)) by {
            assert(recorded.events.is_prefix_of(after.events));
        }
        assert forall|j: int| 0 <= j < self.slots.len() && j != s implies #[trigger] after.slots[j] == start.slots[j] by {
            assert(recorded.slots[j] == mid.slots[j]);
        }
        assert(!after.slots[s].active);
        assert forall|k: int| self.events.len() <= k < after.events.len() implies self.stopped_slot_event(
            after,
            #[trigger] after.events[k],
        ) by {
            if k < start.events.len() {
                assert(after.events[k] == start.events[k]);
                assert(self.stopped_slot_event(start, start.events[k]));
                let i = choose|i: int|
                    0 <= i < self.slots.len() && self.slots[i].active && !(#[trigger] start.slots[i]).active
                        && start.events[k].spec_playback() == self.current_playback(self.id_at(i));
                assert(i != s);
                assert(!after.slots[i].active);
            } else {
                assert(after.events[k].spec_playback() == pb);
                assert(self.slots[s].active && !after.slots[s].active);
            }
        }
        assert forall|i: int|
            0 <= i < self.slots.len() && self.slots[i].active && !self.slots[i].terminal_emitted
                && (#[trigger] after.slots[i]).terminal_emitted implies exists|k: int|
                self.events.len() <= k < after.events.len() && (#[trigger] after.events[k]).spec_playback()
                    == self.current_playback(self.id_at(i)) && (after.events[k].spec_kind()
                    == MotionEventKind::Completed || after.events[k].spec_kind() == MotionEventKind::Canceled) by {
            if i == s {
                assert(recorded.slots[s].terminal_emitted);
                let k = mid.events.len() as int;
                assert(recorded.events[k].spec_playback() == pb);
                assert(after.events[k] == recorded.events[k]);
            } else {
                assert(start.slots[i].terminal_emitted);
                let k = choose|k: int|
                    self.events.len() <= k < start.events.len() && (#[trigger] start.events[k]).spec_playback()
                        == self.current_playback(self.id_at(i)) && (start.events[k].spec_kind()
                        == MotionEventKind::Completed || start.events[k].spec_kind()
                        == MotionEventKind::Canceled);
                assert(after.events[k] == start.events[k]);
            }
        }
        assert forall|i: int|
            0 <= i < self.slots.len() && self.slots[i].animation is Some && (
            #[trigger] after.slots[i]).animation is None implies exists|k: int|
                self.events.len() <= k < after.events.len() && #[trigger] after.events[k]
                    == MotionEvent::spec_new(
                    self.current_playback(self.id_at(i)),
                    MotionEventKind::Removed(RemovalReason::Settled),
                ) by {
            if i == s {
                assert(dropped);
                let k = recorded.events.len() as int;
                assert(recorded.current_playback(id) == pb);
                assert(after.events[k] == MotionEvent::spec_new(
                    recorded.current_playback(id),
                    MotionEventKind::Removed(RemovalReason::Settled),
                ));
            } else {
                assert(start.slots[i].animation is None);
                let k = choose|k: int|
                    self.events.len() <= k < start.events.len() && #[trigger] start.events[k]
                        == MotionEvent::spec_new(
                        self.current_playback(self.id_at(i)),
                        MotionEventKind::Removed(RemovalReason::Settled),
                    );
                assert(after.events[k] == start.events[k]);
            }
        }
    }

    /// At the end of a tick, every slot scheduled exactly once was processed or
    /// left untouched while inactive.
    proof fn lemma_tick_finish(self, index: int, delta: Duration, v: Self)
        requires
            self.tick_progress(index, delta, v),
            v.wf(),
            v.slots.len() == self.slots.len(),
            index >= self.queue.len() || v.active_count == 0,
        ensures
            self.ticks_scheduled(delta, v),
    {
        assert forall|i: int|
            0 <= i < self.slots.len() && #[trigger] Self::scheduled_once(self.queue, self.id_at(i)) implies {
                &&& self.slots[i].active ==> Self::ticked_slot(self.slots[i], delta, v.slots[i])
                &&& !self.slots[i].active ==> v.slots[i] == AnimationSlot {
                    queued: v.slots[i].queued,
                    ..self.slots[i]
                }
            } by {
            if exists|k: int| 0 <= k < index && self.queue[k] == self.id_at(i) {
            } else {
                assert(v.slots[i] == self.slots[i]);
                if index >= self.queue.len() {
                    let k = choose|k: int| 0 <= k < self.queue.len() && self.queue[k] == self.id_at(i);
                    assert(0 <= k < index && self.queue[k] == self.id_at(i));
                }
                if self.slots[i].active {
                    lemma_count_positive(v.slots, i, slot_active());
                }
            }
        }
    }
}

impl<A: AnimationDyn> RuntimeView<A> {
    /// Changing only the slot that `id` names keeps every other slot consistent.
    proof fn lemma_consistent_except(self, id: MotionId, after: Self)
        requires
            self.consistent_except(id),
            forall|i: int|
                0 <= i < after.slots.len() && i != id.spec_slot() ==> i < self.slots.len() && (
                #[trigger] after.slots[i]).active == self.slots[i].active && after.slots[i].animation
                    == self.slots[i].animation,
        ensures
            after.consistent_except(id),
    {
        assert forall|i: int| 0 <= i < after.slots.len() && i != id.spec_slot() implies #[trigger] after.slot_consistent(i) by {
            assert(after.slots[i].active == self.slots[i].active);
            assert(0 <= i < self.slots.len());
            assert(self.slot_consistent(i));
        }
    }

    /// Changing only slot `i` of a consistent runtime, keeping that slot
    /// consistent, keeps the runtime consistent.
    proof fn lemma_consistent_slot_update(self, i: int, after: Self)
        requires
            self.activity_consistent(),
            after.slots.len() == self.slots.len(),
            forall|j: int|
                0 <= j < self.slots.len() && j != i ==> (#[trigger] after.slots[j]).active
                    == self.slots[j].active && after.slots[j].animation == self.slots[j].animation,
            0 <= i < self.slots.len() ==> after.slot_consistent(i),
        ensures
            after.activity_consistent(),
    {
        assert forall|j: int| 0 <= j < after.slots.len() implies #[trigger] after.slot_consistent(j) by {
            if j != i {
                assert(after.slots[j].active == self.slots[j].active);
                assert(self.slot_consistent(j));
            }
        }
    }

    /// A runtime consistent everywhere but at `id`'s slot, and there too, is consistent.
    proof fn lemma_consistent_at(self, id: MotionId)
        requires
            self.consistent_except(id),
            0 <= id.spec_slot() < self.slots.len() ==> self.slot_consistent(id.spec_slot() as int),
        ensures
            self.activity_consistent(),
    {
        assert forall|i: int| 0 <= i < self.slots.len() implies #[trigger] self.slot_consistent(i) by {
            if i != id.spec_slot() {
                assert(self.slot_consistent(i));
            }
        }
    }

    /// Settling the animation of `id` makes the runtime consistent again.
    proof fn lemma_settle_consistent(self, id: MotionId, compacted: A)
        requires
            self.wf(),
            self.lookup(id) is Ok,
            self.consistent_except(id),
            compacted.spec_active() == self.animation_of(id).spec_active(),
        ensures
            self.settle(id, self.animation_of(id).spec_active(), self.state_of(id), compacted).activity_consistent(),
    {
        let i = id.spec_slot() as int;
        let active = self.animation_of(id).spec_active();
        let state = self.state_of(id);
        let after = self.settle(id, active, state, compacted);
        assert forall|j: int| 0 <= j < after.slots.len() implies #[trigger] after.slot_consistent(j) by {
            if j != i {
                assert(self.slot_consistent(j));
                if !active {
                    let d = self.deactivate(id);
                    assert(d.slots[j].active == self.slots[j].active);
                    assert(d.slots[j].animation == self.slots[j].animation);
                }
            }
        }
    }

    /// Switching the animation of `id` and settling it, after steps that only
    /// touch its slot, makes the runtime consistent again.
    pub proof fn lemma_settled_with_consistent(self, id: MotionId, animation: A, after: Self)
        requires
            self.wf(),
            self.lookup(id) is Ok,
            self.consistent_except(id),
            self.settled_with(id, animation, after),
        ensures
            after.activity_consistent(),
    {
        let c = choose|c: A|
            c.spec_state() == animation.spec_state() && c.spec_current_value() == animation.spec_current_value()
                && c.spec_active() == animation.spec_active() && after == self.with_animation(id, animation).settle(
                id,
                animation.spec_active(),
                animation.spec_state(),
                c,
            );
        let x = self.with_animation(id, animation);
        self.lemma_consistent_except(id, x);
        self.lemma_wf_same_shape(id.spec_slot() as int, AnimationSlot { animation: Some(animation), ..self.slot_of(id) });
        assert(x.slots =~= self.with_slot(id.spec_slot() as int, AnimationSlot { animation: Some(animation), ..self.slot_of(id) }).slots);
        x.lemma_settle_consistent(id, c);
    }
}

impl<A: TransitionSource> RuntimeView<A> {
    /// One way a transition of `id` toward `target` ends: asked to retarget, the
    /// stored animation reports `done` and leaves `superseded`; the new animation
    /// `next` is `superseded` itself when it retargeted, and otherwise a transition
    /// from `superseded` with the slot's transition timing. The unfinished playback
    /// reports that it was retargeted, a new playback starts, and the runtime
    /// settles `next`.
    pub open spec fn transition_step(
        self,
        id: MotionId,
        target: A::Target,
        superseded: A,
        done: bool,
        next: A,
        after: Self,
    ) -> bool {
        let prior = self.animation_of(id);
        &&& prior.spec_retargeted(target, done, superseded)
        &&& if done {
            &&& next == superseded
            &&& self.record_interruption(id, prior.spec_state(), InterruptionReason::Retargeted).start_playback(
                id,
            ).settled_with(id, next, after)
        } else {
            &&& superseded.spec_transition(target, self.slot_of(id).transition, next)
            &&& self.with_animation(id, superseded).record_interruption(
                id,
                superseded.spec_state(),
                InterruptionReason::Retargeted,
            ).start_playback(id).settled_with(id, next, after)
        }
    }

    /// The runtime after an idle motion resting at `initial`, with transition timing
    /// `timing`, was inserted at [`RuntimeView::next_id`] and settled.
    pub open spec fn idle_inserted(self, initial: A::Target, timing: Timing, after: Self) -> bool {
        exists|built: A, stored: A|
            #[trigger] A::spec_idle(initial, timing, built) && stored.spec_state() == built.spec_state()
                && stored.spec_current_value() == built.spec_current_value() && stored.spec_active()
                == built.spec_active() && #[trigger] self.insert_slot(
                stored,
                timing,
                RetainPolicy::Keep,
            ).settled_with(self.next_id(), stored, after)
    }

    /// The runtime after a transition of `id` toward `target`.
    pub open spec fn transitioned_to(self, id: MotionId, target: A::Target, after: Self) -> bool {
        exists|superseded: A, done: bool, next: A|
            #[trigger] self.transition_step(id, target, superseded, done, next, after)
    }
}

impl<A> RuntimeView<A> {
    /// Replacing a slot by one with the same activity and occupancy keeps the runtime well formed.
    pub proof fn lemma_wf_same_shape(self, i: int, slot: AnimationSlot<A>)
        requires
            self.wf(),
            0 <= i < self.slots.len(),
            slot.active == self.slots[i].active,
            (slot.animation is Some) == (self.slots[i].animation is Some),
        ensures
            self.with_slot(i, slot).wf(),
    {
        lemma_count_update(self.slots, i, slot, slot_active());
        lemma_count_update(self.slots, i, slot, slot_occupied());
        let w = self.with_slot(i, slot);
        assert forall|k: int| 0 <= k < w.free.len() implies (#[trigger] w.free[k]) < w.slots.len()
            && w.slots[w.free[k] as int].animation is None by {
            assert(self.free[k] < self.slots.len());
        }
        assert forall|j: int| 0 <= j < w.slots.len() && (#[trigger] w.slots[j]).animation is None
            implies w.free.contains(j as usize) by {
            assert(self.slots[j].animation is None);
        }
        assert forall|j: int| 0 <= j < w.slots.len() && (#[trigger] w.slots[j]).active
            implies w.slots[j].animation is Some by {
            assert(self.slots[j].active);
        }
    }

    /// Recording an ending event keeps the runtime well formed.
    pub proof fn lemma_wf_record_terminal(self, id: MotionId, state: AnimationState)
        requires
            self.wf(),
            id.spec_slot() < self.slots.len(),
        ensures
            self.record_terminal(id, state).wf(),
    {
        let slot = self.slot_of(id);
        self.lemma_wf_same_shape(id.spec_slot() as int, AnimationSlot { terminal_emitted: true, ..slot });
    }

    /// Recording an interruption keeps the runtime well formed.
    pub proof fn lemma_wf_record_interruption(
        self,
        id: MotionId,
        state: AnimationState,
        reason: InterruptionReason,
    )
        requires
            self.wf(),
            id.spec_slot() < self.slots.len(),
        ensures
            self.record_interruption(id, state, reason).wf(),
    {
        let slot = self.slot_of(id);
        self.lemma_wf_same_shape(id.spec_slot() as int, AnimationSlot { terminal_emitted: true, ..slot });
    }

    /// Starting a playback keeps the runtime well formed.
    pub proof fn lemma_wf_start_playback(self, id: MotionId)
        requires
            self.wf(),
            id.spec_slot() < self.slots.len(),
        ensures
            self.start_playback(id).wf(),
    {
        let slot = self.slot_of(id);
        self.lemma_wf_same_shape(
            id.spec_slot() as int,
            AnimationSlot {
                playback_revision: Self::next_revision(slot.playback_revision),
                terminal_emitted: false,
                ..slot
            },
        );
    }

    /// Activating keeps the runtime well formed.
    pub proof fn lemma_wf_activate(self, id: MotionId)
        requires
            self.wf(),
        ensures
            self.activate(id).wf(),
    {
        let i = id.spec_slot() as int;
        if i < self.slots.len() && self.slots[i].generation == id.spec_generation()
            && self.slots[i].animation is Some {
            let slot = self.slots[i];
            let x = AnimationSlot { active: true, queued: true, ..slot };
            lemma_count_update(self.slots, i, x, slot_active());
            lemma_count_update(self.slots, i, x, slot_occupied());
            let w = self.activate(id);
            assert forall|k: int| 0 <= k < w.free.len() implies (#[trigger] w.free[k])
                < w.slots.len() && w.slots[w.free[k] as int].animation is None by {
                assert(self.free[k] < self.slots.len());
            }
            assert forall|j: int|
                0 <= j < w.slots.len() && (#[trigger] w.slots[j]).animation is None implies w.free.contains(
                j as usize,
            ) by {
                assert(self.slots[j].animation is None);
            }
            assert forall|j: int| 0 <= j < w.slots.len() && (#[trigger] w.slots[j]).active
                implies w.slots[j].animation is Some by {
                if j != i {
                    assert(self.slots[j].active);
                }
            }
        }
    }

    /// Deactivating keeps the runtime well formed.
    pub proof fn lemma_wf_deactivate(self, id: MotionId)
        requires
            self.wf(),
        ensures
            self.deactivate(id).wf(),
    {
        let i = id.spec_slot() as int;
        if i < self.slots.len() && self.slots[i].generation == id.spec_generation()
            && self.slots[i].active {
            let x = AnimationSlot { active: false, ..self.slots[i] };
            self.lemma_wf_inactive(i, x);
            let v = self.with_slot(i, x);
            lemma_count_update(self.slots, i, x, slot_active());
            if (self.active_count - 1) as nat == 0 {
                let slots2 = Self::unqueue_all(v.slots, self.queue);
                lemma_count_ext(v.slots, slots2, slot_active());
                lemma_count_ext(v.slots, slots2, slot_occupied());
                let w = self.deactivate(id);
                assert forall|k: int| 0 <= k < w.free.len() implies (#[trigger] w.free[k])
                    < w.slots.len() && w.slots[w.free[k] as int].animation is None by {
                    assert(v.free[k] < v.slots.len());
                }
                assert forall|j: int|
                    0 <= j < w.slots.len() && (#[trigger] w.slots[j]).animation is None implies w.free.contains(
                    j as usize,
                ) by {
                    assert(v.slots[j].animation is None);
                }
                assert forall|j: int| 0 <= j < w.slots.len() && (#[trigger] w.slots[j]).active
                    implies w.slots[j].animation is Some by {
                    assert(v.slots[j].active);
                }
            }
        }
    }

    /// Clearing the active flag of an active slot keeps the runtime well formed, one count lower.
    pub proof fn lemma_wf_inactive(self, i: int, x: AnimationSlot<A>)
        requires
            self.wf(),
            0 <= i < self.slots.len(),
            self.slots[i].active,
            !x.active,
            (x.animation is Some) == (self.slots[i].animation is Some),
        ensures
            ({
                let v = self.with_slot(i, x);
                RuntimeView { active_count: (self.active_count - 1) as nat, ..v }.wf()
            }),
    {
        lemma_count_update(self.slots, i, x, slot_active());
        lemma_count_update(self.slots, i, x, slot_occupied());
        let v = self.with_slot(i, x);
        let w = RuntimeView { active_count: (self.active_count - 1) as nat, ..v };
        assert forall|k: int| 0 <= k < w.free.len() implies (#[trigger] w.free[k]) < w.slots.len()
            && w.slots[w.free[k] as int].animation is None by {
            assert(self.free[k] < self.slots.len());
        }
        assert forall|j: int| 0 <= j < w.slots.len() && (#[trigger] w.slots[j]).animation is None
            implies w.free.contains(j as usize) by {
            assert(self.slots[j].animation is None);
        }
        assert forall|j: int| 0 <= j < w.slots.len() && (#[trigger] w.slots[j]).active
            implies w.slots[j].animation is Some by {
            assert(self.slots[j].active);
        }
    }

    /// Emptying a slot keeps the runtime well formed.
    pub proof fn lemma_wf_drop_slot(self, id: MotionId, reason: RemovalReason)
        requires
            self.wf(),
            self.lookup(id) is Ok,
        ensures
            self.drop_slot(id, reason).wf(),
    {
        let i = id.spec_slot() as int;
        let slot = self.slots[i];
        let x = AnimationSlot { animation: None, active: false, queued: false, ..slot };
        lemma_count_update(self.slots, i, x, slot_active());
        lemma_count_update(self.slots, i, x, slot_occupied());
        let w = self.drop_slot(id, reason);
        assert(!self.free.contains(i as usize)) by {
            if self.free.contains(i as usize) {
                let k = choose|k: int| 0 <= k < self.free.len() && self.free[k] == i as usize;
                assert(self.slots[self.free[k] as int].animation is None);
            }
        }
        assert forall|k: int| 0 <= k < w.free.len() implies (#[trigger] w.free[k]) < w.slots.len()
            && w.slots[w.free[k] as int].animation is None by {
            if k < self.free.len() {
                assert(self.free[k] < self.slots.len());
                assert(w.free[k] == self.free[k]);
            }
        }
        assert forall|j: int| 0 <= j < w.slots.len() && (#[trigger] w.slots[j]).animation is None
            implies w.free.contains(j as usize) by {
            if j != i {
                assert(self.slots[j].animation is None);
                let k = choose|k: int| 0 <= k < self.free.len() && self.free[k] == j as usize;
                assert(w.free[k] == j as usize);
            } else {
                assert(w.free[self.free.len() as int] == j as usize);
            }
        }
        assert forall|j: int| 0 <= j < w.slots.len() && (#[trigger] w.slots[j]).active
            implies w.slots[j].animation is Some by {
            assert(self.slots[j].active);
        }
        assert(w.free.no_duplicates()) by {
            assert forall|a: int, b: int| 0 <= a < w.free.len() && 0 <= b < w.free.len() && a != b
                implies w.free[a] != w.free[b] by {
                if a < self.free.len() && b < self.free.len() {
                } else if a < self.free.len() {
                    assert(self.free.contains(self.free[a]));
                } else {
                    assert(self.free.contains(self.free[b]));
                }
            }
        }
        if slot.active {
            lemma_count_positive(self.slots, i, slot_active());
        }
        lemma_count_positive(self.slots, i, slot_occupied());
    }
}

impl<A: AnimationDyn> RuntimeView<A> {
    /// The ID naming slot `i` is the current ID of that slot.
    pub proof fn lemma_id_at(self, i: int, id: MotionId)
        requires
            0 <= i < self.slots.len(),
            id.spec_slot() == i,
            id.spec_generation() == self.slots[i].generation,
        ensures
            id == self.id_at(i),
    {
        MotionId::lemma_new(i as usize, self.slots[i].generation);
        MotionId::lemma_eq(id, self.id_at(i));
    }

    /// A runtime whose queue and slot generations, flags and occupancy agree with
    /// those of one with a well-formed schedule has a well-formed schedule too.
    pub proof fn lemma_sched_frame(self, w: Self)
        requires
            self.schedule_wf(),
            w.queue == self.queue,
            w.slots.len() == self.slots.len(),
            forall|j: int|
                0 <= j < self.slots.len() ==> {
                    &&& (#[trigger] w.slots[j]).generation == self.slots[j].generation
                    &&& w.slots[j].queued == self.slots[j].queued
                    &&& w.slots[j].active == self.slots[j].active
                    &&& (w.slots[j].animation is Some) == (self.slots[j].animation is Some)
                },
        ensures
            w.schedule_wf(),
    {
        assert forall|k: int| 0 <= k < w.queue.len() implies w.names_queued(#[trigger] w.queue[k]) by {
            assert(self.names_queued(self.queue[k]));
            assert(w.slots[self.queue[k].spec_slot() as int].generation == self.slots[self.queue[k].spec_slot() as int].generation);
        }
        assert forall|j: int| 0 <= j < w.slots.len() && (#[trigger] w.slots[j]).queued implies w.queue.contains(
            w.id_at(j),
        ) && w.slots[j].animation is Some by {
            assert(self.slots[j].queued);
        }
        assert forall|j: int| 0 <= j < w.slots.len() && (#[trigger] w.slots[j]).active implies w.slots[j].queued by {
            assert(self.slots[j].active);
        }
    }

    /// Recording events and starting playbacks keep the schedule well formed.
    pub proof fn lemma_sched_bookkeeping(self, id: MotionId, state: AnimationState, reason: InterruptionReason)
        requires
            self.schedule_wf(),
            id.spec_slot() < self.slots.len(),
        ensures
            self.record_terminal(id, state).schedule_wf(),
            self.record_interruption(id, state, reason).schedule_wf(),
            self.start_playback(id).schedule_wf(),
    {
        self.lemma_sched_frame(self.record_terminal(id, state));
        self.lemma_sched_frame(self.record_interruption(id, state, reason));
        self.lemma_sched_frame(self.start_playback(id));
    }

    /// Swapping the animation a slot holds keeps the schedule well formed.
    pub proof fn lemma_sched_with_animation(self, id: MotionId, animation: A)
        requires
            self.schedule_wf(),
            self.lookup(id) is Ok,
        ensures
            self.with_animation(id, animation).schedule_wf(),
    {
        self.lemma_sched_frame(self.with_animation(id, animation));
    }

    /// Partway through a tick that started at `self`, after the first `index`
    /// queue entries: `next` holds, once each, current IDs of active queued slots
    /// taken from the entries already processed, and every queued slot is in
    /// `next` or still ahead in the queue.
    pub open spec fn tick_schedule(self, index: int, now: Self, next: Seq<MotionId>) -> bool {
        &&& next.no_duplicates()
        &&& forall|m: int|
            0 <= m < next.len() ==> exists|k: int| 0 <= k < index && self.queue[k] == #[trigger] next[m]
        &&& forall|m: int|
            0 <= m < next.len() ==> now.names_queued(#[trigger] next[m])
                && now.slots[next[m].spec_slot() as int].active
        &&& forall|i: int|
            0 <= i < now.slots.len() && (#[trigger] now.slots[i]).queued ==> next.contains(now.id_at(i))
                || exists|k: int| index <= k < self.queue.len() && self.queue[k] == now.id_at(i)
        &&& forall|i: int| 0 <= i < now.slots.len() && (#[trigger] now.slots[i]).active ==> now.slots[i].queued
        &&& forall|i: int|
            0 <= i < now.slots.len() && (#[trigger] now.slots[i]).queued ==> now.slots[i].animation is Some
    }

    /// A tick starts with nothing processed.
    pub proof fn lemma_tick_schedule_start(self)
        requires
            self.schedule_wf(),
        ensures
            self.tick_schedule(0, self, Seq::empty()),
    {
        assert forall|i: int| 0 <= i < self.slots.len() && (#[trigger] self.slots[i]).queued implies Seq::<MotionId>::empty().contains(self.id_at(i))
            || exists|k: int| 0 <= k < self.queue.len() && self.queue[k] == self.id_at(i) by {
            assert(self.queue.contains(self.id_at(i)));
        }
    }

    /// Processing queue entry `index - 1`, which names slot `s`, keeps the tick's
    /// schedule bookkeeping: the slot is either scheduled again in `after_next`,
    /// active, or left neither queued nor active.
    pub proof fn lemma_tick_schedule_step(
        self,
        index: int,
        before: Self,
        before_next: Seq<MotionId>,
        after: Self,
        after_next: Seq<MotionId>,
        s: int,
        pushed: bool,
    )
        requires
            self.schedule_wf(),
            self.slots.len() <= usize::MAX,
            self.tick_schedule(index - 1, before, before_next),
            0 < index <= self.queue.len(),
            0 <= s < self.slots.len(),
            self.queue[index - 1] == self.id_at(s),
            before.slots.len() == self.slots.len(),
            after.slots.len() == self.slots.len(),
            before.slots[s].generation == self.slots[s].generation,
            after.slots[s].generation == self.slots[s].generation,
            forall|j: int| 0 <= j < self.slots.len() && j != s ==> #[trigger] after.slots[j] == before.slots[j],
            forall|j: int| 0 <= j < self.slots.len() ==> (#[trigger] before.slots[j]).generation == self.slots[j].generation,
            pushed ==> after_next == before_next.push(self.id_at(s)) && after.slots[s].queued
                && after.slots[s].active && after.slots[s].animation is Some,
            !pushed ==> after_next == before_next && !after.slots[s].queued && !after.slots[s].active,
        ensures
            self.tick_schedule(index, after, after_next),
    {
        let id = self.id_at(s);
        MotionId::lemma_new(s as usize, self.slots[s].generation);
        assert(before.id_at(s) == id);
        assert(after.id_at(s) == id);
        assert forall|m: int| 0 <= m < before_next.len() implies before_next[m] != id by {
            let k = choose|k: int| 0 <= k < index - 1 && self.queue[k] == before_next[m];
            assert(self.queue.no_duplicates());
        }
        assert forall|m: int| 0 <= m < before_next.len() implies (#[trigger] before_next[m]).spec_slot() != s by {
            let k = choose|k: int| 0 <= k < index - 1 && self.queue[k] == before_next[m];
            assert(before.names_queued(before_next[m]));
            if before_next[m].spec_slot() == s {
                before.lemma_id_at(s, before_next[m]);
            }
        }
        if pushed {
            assert(after_next.no_duplicates()) by {
                assert forall|a: int, b: int| 0 <= a < after_next.len() && 0 <= b < after_next.len() && a != b
                    implies after_next[a] != after_next[b] by {
                    if a < before_next.len() && b < before_next.len() {
                    } else if a < before_next.len() {
                        assert(before_next[a] != id);
                    } else {
                        assert(before_next[b] != id);
                    }
                }
            }
            assert(after_next[before_next.len() as int] == id);
        }
        assert forall|m: int| 0 <= m < after_next.len() implies exists|k: int|
            0 <= k < index && self.queue[k] == #[trigger] after_next[m] by {
            if m < before_next.len() {
                assert(after_next[m] == before_next[m]);
                let k = choose|k: int| 0 <= k < index - 1 && self.queue[k] == before_next[m];
                assert(self.queue[k] == after_next[m]);
            } else {
                assert(self.queue[index - 1] == after_next[m]);
            }
        }
        assert forall|m: int| 0 <= m < after_next.len() implies after.names_queued(#[trigger] after_next[m])
            && after.slots[after_next[m].spec_slot() as int].active by {
            if m < before_next.len() {
                assert(after_next[m] == before_next[m]);
                assert(before.names_queued(before_next[m]));
                assert(before_next[m].spec_slot() != s);
                assert(after.slots[before_next[m].spec_slot() as int] == before.slots[before_next[m].spec_slot() as int]);
            } else {
                assert(after_next[m] == id);
                assert(id.spec_slot() == s);
                assert(id.spec_generation() == self.slots[s].generation);
            }
        }
        assert forall|i: int| 0 <= i < after.slots.len() && (#[trigger] after.slots[i]).queued implies after_next.contains(after.id_at(i))
            || exists|k: int| index <= k < self.queue.len() && self.queue[k] == after.id_at(i) by {
            if i == s {
                assert(pushed);
                assert(after_next[before_next.len() as int] == id);
            } else {
                assert(before.slots[i].queued);
                assert(after.id_at(i) == before.id_at(i));
                if before_next.contains(before.id_at(i)) {
                    let m = choose|m: int| 0 <= m < before_next.len() && before_next[m] == before.id_at(i);
                    assert(after_next[m] == before_next[m]);
                } else {
                    let k = choose|k: int| index - 1 <= k < self.queue.len() && self.queue[k] == before.id_at(i);
                    MotionId::lemma_new(i as usize, before.slots[i].generation);
                    assert(before.id_at(i).spec_slot() == i);
                    assert(k != index - 1);
                }
            }
        }
        assert forall|i: int| 0 <= i < after.slots.len() && (#[trigger] after.slots[i]).active implies after.slots[i].queued by {
            if i != s {
                assert(before.slots[i].active);
            }
        }
        assert forall|i: int| 0 <= i < after.slots.len() && (#[trigger] after.slots[i]).queued implies after.slots[i].animation is Some by {
            if i != s {
                assert(before.slots[i].queued);
            }
        }
    }

    /// A tick that processed every entry, or stopped with nothing active, and then
    /// scheduled `next` leaves a well-formed schedule.
    pub proof fn lemma_tick_schedule_finish(self, now: Self, next: Seq<MotionId>, after: Self)
        requires
            self.tick_schedule(self.queue.len() as int, now, next),
            now.wf(),
            after.slots == now.slots,
            after.active_count == now.active_count,
            after.queue == if now.active_count == 0 { Seq::<MotionId>::empty() } else { next },
        ensures
            after.schedule_wf(),
    {
        if now.active_count == 0 {
            assert(next.len() == 0) by {
                if next.len() > 0 {
                    assert(now.names_queued(next[0]));
                    lemma_count_positive(now.slots, next[0].spec_slot() as int, slot_active());
                }
            }
            assert forall|i: int| 0 <= i < after.slots.len() implies !(#[trigger] after.slots[i]).queued by {
                if now.slots[i].queued {
                    assert(next.contains(now.id_at(i)));
                }
            }
            assert forall|i: int| 0 <= i < after.slots.len() && (#[trigger] after.slots[i]).active implies after.slots[i].queued by {
                lemma_count_positive(now.slots, i, slot_active());
            }
        } else {
            assert forall|k: int| 0 <= k < after.queue.len() implies after.names_queued(#[trigger] after.queue[k]) by {
                assert(now.names_queued(next[k]));
            }
            assert forall|i: int| 0 <= i < after.slots.len() && (#[trigger] after.slots[i]).queued implies after.queue.contains(
                after.id_at(i),
            ) && after.slots[i].animation is Some by {
                assert(now.slots[i].queued);
            }
            assert forall|i: int| 0 <= i < after.slots.len() && (#[trigger] after.slots[i]).active implies after.slots[i].queued by {
                assert(now.slots[i].active);
            }
        }
    }

    /// Replacing slot `i` by one with the same generation, queued flag and
    /// activity keeps the schedule well formed, if it still holds an animation
    /// while queued.
    pub proof fn lemma_sched_same_shape(self, i: int, slot: AnimationSlot<A>)
        requires
            self.schedule_wf(),
            0 <= i < self.slots.len(),
            slot.generation == self.slots[i].generation,
            slot.queued == self.slots[i].queued,
            slot.active ==> slot.queued,
            slot.queued ==> slot.animation is Some,
        ensures
            self.with_slot(i, slot).schedule_wf(),
    {
        let w = self.with_slot(i, slot);
        assert forall|k: int| 0 <= k < w.queue.len() implies w.names_queued(#[trigger] w.queue[k]) by {
            assert(self.names_queued(self.queue[k]));
        }
        assert forall|j: int| 0 <= j < w.slots.len() && (#[trigger] w.slots[j]).queued implies w.queue.contains(
            w.id_at(j),
        ) && w.slots[j].animation is Some by {
            assert(self.slots[j].queued);
        }
        assert forall|j: int| 0 <= j < w.slots.len() && (#[trigger] w.slots[j]).active implies w.slots[j].queued by {
            if j != i {
                assert(self.slots[j].active);
            }
        }
    }

    /// Activating keeps the schedule well formed.
    pub proof fn lemma_sched_activate(self, id: MotionId)
        requires
            self.schedule_wf(),
        ensures
            self.activate(id).schedule_wf(),
    {
        let i = id.spec_slot() as int;
        if i < self.slots.len() && self.slots[i].generation == id.spec_generation()
            && self.slots[i].animation is Some {
            self.lemma_id_at(i, id);
            let w = self.activate(id);
            if !self.slots[i].queued {
                assert(!self.queue.contains(id)) by {
                    if self.queue.contains(id) {
                        let k = choose|k: int| 0 <= k < self.queue.len() && self.queue[k] == id;
                        assert(self.names_queued(self.queue[k]));
                    }
                }
                assert(w.queue.no_duplicates()) by {
                    assert forall|a: int, b: int| 0 <= a < w.queue.len() && 0 <= b < w.queue.len() && a != b
                        implies w.queue[a] != w.queue[b] by {
                        if a < self.queue.len() && b < self.queue.len() {
                        } else if a < self.queue.len() {
                            assert(self.queue.contains(self.queue[a]));
                        } else {
                            assert(self.queue.contains(self.queue[b]));
                        }
                    }
                }
                assert(w.queue[self.queue.len() as int] == id);
            }
            assert forall|k: int| 0 <= k < w.queue.len() implies w.names_queued(#[trigger] w.queue[k]) by {
                if k < self.queue.len() {
                    assert(self.names_queued(self.queue[k]));
                }
            }
            assert forall|j: int| 0 <= j < w.slots.len() && (#[trigger] w.slots[j]).queued implies w.queue.contains(
                w.id_at(j),
            ) && w.slots[j].animation is Some by {
                if j == i {
                    if self.slots[i].queued {
                        assert(self.queue.contains(self.id_at(i)));
                    } else {
                        assert(w.queue[self.queue.len() as int] == w.id_at(i));
                    }
                } else {
                    assert(self.slots[j].queued);
                    let k = choose|k: int| 0 <= k < self.queue.len() && self.queue[k] == self.id_at(j);
                    assert(w.queue[k] == w.id_at(j));
                }
            }
            assert forall|j: int| 0 <= j < w.slots.len() && (#[trigger] w.slots[j]).active implies w.slots[j].queued by {
                if j != i {
                    assert(self.slots[j].active);
                }
            }
        }
    }

    /// With nothing active, clearing the schedule leaves it well formed.
    pub proof fn lemma_sched_idle_schedule(self)
        requires
            self.wf(),
            self.active_count > 0 ==> self.schedule_wf(),
            forall|i: int|
                0 <= i < self.slots.len() && (#[trigger] self.slots[i]).queued ==> self.queue.contains(
                    self.id_at(i),
                ),
        ensures
            self.idle_schedule().schedule_wf(),
    {
        if self.active_count == 0 {
            let w = self.idle_schedule();
            assert forall|j: int| 0 <= j < w.slots.len() && (#[trigger] w.slots[j]).queued implies w.queue.contains(
                w.id_at(j),
            ) && w.slots[j].animation is Some by {
                assert(self.slots[j].queued);
                assert(self.queue.contains(self.id_at(j)));
            }
            assert forall|j: int| 0 <= j < w.slots.len() && (#[trigger] w.slots[j]).active implies w.slots[j].queued by {
                lemma_count_positive(self.slots, j, slot_active());
            }
        }
    }

    /// Deactivating keeps the schedule well formed.
    pub proof fn lemma_sched_deactivate(self, id: MotionId)
        requires
            self.wf(),
            self.schedule_wf(),
        ensures
            self.deactivate(id).schedule_wf(),
    {
        let i = id.spec_slot() as int;
        if i < self.slots.len() && self.slots[i].generation == id.spec_generation()
            && self.slots[i].active {
            let x = AnimationSlot { active: false, ..self.slots[i] };
            self.lemma_sched_same_shape(i, x);
            let v = self.with_slot(i, x);
            self.lemma_wf_inactive(i, x);
            let u = RuntimeView { active_count: (self.active_count - 1) as nat, ..v };
            assert(u.active_count > 0 ==> u.schedule_wf());
            assert forall|j: int| 0 <= j < u.slots.len() && (#[trigger] u.slots[j]).queued implies u.queue.contains(
                u.id_at(j),
            ) by {
                assert(v.slots[j].queued);
            }
            u.lemma_sched_idle_schedule();
            assert(self.deactivate(id) == u.idle_schedule()) by {
                assert(self.deactivate(id).slots =~= u.idle_schedule().slots);
            }
        }
    }

    /// Taking the entry of a stored animation out of the queue keeps the
    /// schedule well formed, its slot no longer queued.
    pub proof fn lemma_sched_unschedule(self, id: MotionId)
        requires
            self.wf(),
            self.schedule_wf(),
            self.lookup(id) is Ok,
        ensures
            self.unschedule(id).schedule_wf() || self.unschedule(id).slots[id.spec_slot() as int].active,
            !self.unschedule(id).slots[id.spec_slot() as int].queued,
            forall|i: int|
                0 <= i < self.slots.len() && (#[trigger] self.unschedule(id).slots[i]).queued
                    ==> self.unschedule(id).queue.contains(self.unschedule(id).id_at(i)),
            forall|k: int|
                0 <= k < self.unschedule(id).queue.len() ==> self.unschedule(id).names_queued(
                    #[trigger] self.unschedule(id).queue[k],
                ),
            self.unschedule(id).queue.no_duplicates(),
            forall|i: int|
                0 <= i < self.slots.len() && i != id.spec_slot() && (#[trigger] self.unschedule(
                    id,
                ).slots[i]).active ==> self.unschedule(id).slots[i].queued,
            forall|i: int|
                0 <= i < self.slots.len() && (#[trigger] self.unschedule(id).slots[i]).queued
                    ==> self.unschedule(id).slots[i].animation is Some,
    {
        let i = id.spec_slot() as int;
        self.lemma_id_at(i, id);
        let w = self.unschedule(id);
        if self.queue.contains(id) {
            let k = choose|k: int| 0 <= k < self.queue.len() && self.queue[k] == id;
            self.queue.remove_ensures(k);
            assert forall|a: int, b: int| 0 <= a < w.queue.len() && 0 <= b < w.queue.len() && a != b
                implies w.queue[a] != w.queue[b] by {
                let a1 = if a < k { a } else { a + 1 };
                let b1 = if b < k { b } else { b + 1 };
                assert(w.queue[a] == self.queue[a1]);
                assert(w.queue[b] == self.queue[b1]);
            }
            assert forall|m: int| 0 <= m < w.queue.len() implies w.names_queued(#[trigger] w.queue[m]) by {
                let m1 = if m < k { m } else { m + 1 };
                assert(w.queue[m] == self.queue[m1]);
                assert(self.names_queued(self.queue[m1]));
                if self.queue[m1].spec_slot() == i {
                    self.lemma_id_at(i, self.queue[m1]);
                }
            }
            assert forall|j: int| 0 <= j < self.slots.len() && (#[trigger] w.slots[j]).queued implies w.queue.contains(
                w.id_at(j),
            ) by {
                assert(self.slots[j].queued);
                assert(j != i);
                let m = choose|m: int| 0 <= m < self.queue.len() && self.queue[m] == self.id_at(j);
                MotionId::lemma_new(j as usize, self.slots[j].generation);
                assert(self.id_at(j).spec_slot() == j);
                assert(m != k);
                if m < k {
                    assert(w.queue[m] == w.id_at(j));
                } else {
                    assert(w.queue[m - 1] == w.id_at(j));
                }
            }
        } else {
            assert(!self.slots[i].queued);
        }
        assert forall|j: int| 0 <= j < self.slots.len() && (#[trigger] w.slots[j]).queued implies w.slots[j].animation is Some by {
            assert(self.slots[j].queued);
        }
        assert forall|j: int| 0 <= j < self.slots.len() && j != i && (#[trigger] w.slots[j]).active implies w.slots[j].queued by {
            assert(self.slots[j].active);
        }
    }

    /// Removing a stored animation keeps the schedule well formed.
    pub proof fn lemma_sched_remove_slot(self, id: MotionId, reason: RemovalReason)
        requires
            self.wf(),
            self.schedule_wf(),
            self.lookup(id) is Ok,
        ensures
            self.remove_slot(id, reason).schedule_wf(),
    {
        let i = id.spec_slot() as int;
        self.lemma_sched_unschedule(id);
        self.lemma_wf_unschedule(id);
        let u = self.unschedule(id);
        u.lemma_wf_drop_slot(id, reason);
        let d = u.drop_slot(id, reason);
        assert forall|k: int| 0 <= k < d.queue.len() implies d.names_queued(#[trigger] d.queue[k]) by {
            assert(u.names_queued(u.queue[k]));
            assert(u.queue[k].spec_slot() != i);
        }
        assert forall|j: int| 0 <= j < d.slots.len() && (#[trigger] d.slots[j]).queued implies d.queue.contains(
            d.id_at(j),
        ) && d.slots[j].animation is Some by {
            assert(u.slots[j].queued);
        }
        assert forall|j: int| 0 <= j < d.slots.len() && (#[trigger] d.slots[j]).active implies d.slots[j].queued by {
            assert(u.slots[j].active);
        }
        assert(d.schedule_wf());
        d.lemma_sched_idle_schedule();
    }

    /// Storing a new animation keeps the schedule well formed.
    pub proof fn lemma_sched_insert_slot(self, animation: A, transition: Timing, retain_policy: RetainPolicy)
        requires
            self.wf(),
            self.schedule_wf(),
        ensures
            self.insert_slot(animation, transition, retain_policy).schedule_wf(),
    {
        let w = self.insert_slot(animation, transition, retain_policy);
        let id = self.next_id();
        if self.free.len() > 0 {
            let i = self.free.last() as int;
            assert(self.free[self.free.len() - 1] == self.free.last());
            assert(self.slots[i].animation is None);
            assert forall|k: int| 0 <= k < w.queue.len() implies w.names_queued(#[trigger] w.queue[k]) by {
                assert(self.names_queued(self.queue[k]));
                if self.queue[k].spec_slot() == i {
                    assert(self.slots[i].queued);
                }
            }
            assert forall|j: int| 0 <= j < w.slots.len() && (#[trigger] w.slots[j]).queued implies w.queue.contains(
                w.id_at(j),
            ) && w.slots[j].animation is Some by {
                assert(self.slots[j].queued);
            }
            assert forall|j: int| 0 <= j < w.slots.len() && (#[trigger] w.slots[j]).active implies w.slots[j].queued by {
                assert(self.slots[j].active);
            }
        } else {
            assert forall|k: int| 0 <= k < w.queue.len() implies w.names_queued(#[trigger] w.queue[k]) by {
                assert(self.names_queued(self.queue[k]));
                assert(w.slots[self.queue[k].spec_slot() as int] == self.slots[self.queue[k].spec_slot() as int]);
            }
            assert forall|j: int| 0 <= j < w.slots.len() && (#[trigger] w.slots[j]).queued implies w.queue.contains(
                w.id_at(j),
            ) && w.slots[j].animation is Some by {
                assert(j < self.slots.len());
                assert(self.slots[j].queued);
            }
            assert forall|j: int| 0 <= j < w.slots.len() && (#[trigger] w.slots[j]).active implies w.slots[j].queued by {
                assert(j < self.slots.len());
                assert(self.slots[j].active);
            }
        }
    }

    /// Settling a stored animation keeps the schedule well formed.
    pub proof fn lemma_sched_settle(self, id: MotionId, active: bool, state: AnimationState, c: A)
        requires
            self.wf(),
            self.schedule_wf(),
            self.lookup(id) is Ok,
        ensures
            self.settle(id, active, state, c).schedule_wf(),
    {
        let i = id.spec_slot() as int;
        if active {
            self.lemma_sched_activate(id);
        } else {
            self.lemma_sched_deactivate(id);
            self.lemma_wf_deactivate(id);
            let v1 = self.deactivate(id);
            let v = v1.record_terminal(id, state);
            v1.lemma_wf_record_terminal(id, state);
            v1.lemma_sched_same_shape(i, AnimationSlot { terminal_emitted: true, ..v1.slots[i] });
            assert(v.schedule_wf()) by {
                if v != v1 {
                    assert(v.slots =~= v1.with_slot(i, AnimationSlot { terminal_emitted: true, ..v1.slots[i] }).slots);
                    assert forall|k: int| 0 <= k < v.queue.len() implies v.names_queued(#[trigger] v.queue[k]) by {
                        assert(v1.with_slot(i, AnimationSlot { terminal_emitted: true, ..v1.slots[i] }).names_queued(v1.queue[k]));
                    }
                    assert forall|j: int| 0 <= j < v.slots.len() && (#[trigger] v.slots[j]).queued implies v.queue.contains(
                        v.id_at(j),
                    ) && v.slots[j].animation is Some by {
                        assert(v1.slots[j].queued);
                    }
                }
            }
            if v.slot_of(id).retain_policy == RetainPolicy::DropWhenSettled && state.is_settled() {
                v.lemma_sched_remove_slot(id, RemovalReason::Settled);
            } else {
                v.lemma_sched_same_shape(i, AnimationSlot { animation: Some(c), ..v.slot_of(id) });
            }
        }
    }
}

impl<A> RuntimeView<A> {
    /// Taking an entry out of the tick queue keeps the runtime well formed.
    pub proof fn lemma_wf_unschedule(self, id: MotionId)
        requires
            self.wf(),
            id.spec_slot() < self.slots.len(),
        ensures
            self.unschedule(id).wf(),
            self.unschedule(id).slots.len() == self.slots.len(),
            forall|j: int| 0 <= j < self.slots.len() ==> {
                &&& (#[trigger] self.unschedule(id).slots[j]).generation == self.slots[j].generation
                &&& self.unschedule(id).slots[j].animation == self.slots[j].animation
                &&& self.unschedule(id).slots[j].active == self.slots[j].active
            },
            self.unschedule(id).lookup(id) == self.lookup(id),
    {
        if self.queue.contains(id) {
            let i = id.spec_slot() as int;
            let x = AnimationSlot { queued: false, ..self.slots[i] };
            self.lemma_wf_same_shape(i, x);
            assert(self.unschedule(id).slots =~= self.with_slot(i, x).slots);
        }
    }

    /// Clearing the schedule once nothing is active keeps the runtime well formed.
    pub proof fn lemma_wf_idle_schedule(self)
        requires
            self.wf(),
        ensures
            self.idle_schedule().wf(),
            self.idle_schedule().slots.len() == self.slots.len(),
            forall|j: int| 0 <= j < self.slots.len() ==> {
                &&& (#[trigger] self.idle_schedule().slots[j]).generation == self.slots[j].generation
                &&& self.idle_schedule().slots[j].animation == self.slots[j].animation
                &&& self.idle_schedule().slots[j].active == self.slots[j].active
            },
    {
        if self.active_count == 0 {
            let slots2 = Self::unqueue_all(self.slots, self.queue);
            lemma_count_ext(self.slots, slots2, slot_active());
            lemma_count_ext(self.slots, slots2, slot_occupied());
            let w = self.idle_schedule();
            assert forall|k: int| 0 <= k < w.free.len() implies (#[trigger] w.free[k]) < w.slots.len()
                && w.slots[w.free[k] as int].animation is None by {
                assert(self.free[k] < self.slots.len());
            }
            assert forall|j: int| 0 <= j < w.slots.len() && (#[trigger] w.slots[j]).animation is None
                implies w.free.contains(j as usize) by {
                assert(self.slots[j].animation is None);
            }
            assert forall|j: int| 0 <= j < w.slots.len() && (#[trigger] w.slots[j]).active
                implies w.slots[j].animation is Some by {
                assert(self.slots[j].active);
            }
        }
    }

    /// Removing a stored animation keeps the runtime well formed.
    pub proof fn lemma_wf_remove_slot(self, id: MotionId, reason: RemovalReason)
        requires
            self.wf(),
            self.lookup(id) is Ok,
        ensures
            self.remove_slot(id, reason).wf(),
    {
        self.lemma_wf_unschedule(id);
        let u = self.unschedule(id);
        u.lemma_wf_drop_slot(id, reason);
        u.drop_slot(id, reason).lemma_wf_idle_schedule();
    }
}

impl<A: AnimationDyn> RuntimeView<A> {
    /// Settling a stored animation keeps the runtime well formed.
    pub proof fn lemma_wf_settle(self, id: MotionId, active: bool, state: AnimationState, c: A)
        requires
            self.wf(),
            self.lookup(id) is Ok,
        ensures
            self.settle(id, active, state, c).wf(),
    {
        let i = id.spec_slot() as int;
        if active {
            self.lemma_wf_activate(id);
        } else {
            self.lemma_wf_deactivate(id);
            let v1 = self.deactivate(id);
            assert(v1.slots[i].generation == self.slots[i].generation);
            assert(v1.slots[i].animation == self.slots[i].animation);
            v1.lemma_wf_record_terminal(id, state);
            let v = v1.record_terminal(id, state);
            assert(v.slots[i].generation == self.slots[i].generation);
            assert(v.slots[i].animation == self.slots[i].animation);
            if v.slot_of(id).retain_policy == RetainPolicy::DropWhenSettled && state.is_settled() {
                v.lemma_wf_remove_slot(id, RemovalReason::Settled);
            } else {
                v.lemma_wf_same_shape(i, AnimationSlot { animation: Some(c), ..v.slot_of(id) });
            }
        }
    }

    /// Storing an animation in the next slot keeps the runtime well formed and names it by the next ID.
    pub proof fn lemma_wf_insert_slot(self, animation: A, transition: Timing, retain_policy: RetainPolicy)
        requires
            self.wf(),
            self.slots.len() < usize::MAX,
        ensures
            self.insert_slot(animation, transition, retain_policy).wf(),
            self.insert_slot(animation, transition, retain_policy).lookup(self.next_id()) is Ok,
            !self.insert_slot(animation, transition, retain_policy).slot_of(self.next_id()).active,
    {
        let id = self.next_id();
        let w = self.insert_slot(animation, transition, retain_policy);
        let slot = AnimationSlot {
            generation: id.spec_generation(),
            playback_revision: 0,
            terminal_emitted: false,
            transition,
            retain_policy,
            animation: Some(animation),
            active: false,
            queued: false,
        };
        if self.free.len() > 0 {
            let i = self.free.last() as int;
            assert(self.free[self.free.len() - 1] < self.slots.len());
            assert(!self.slots[i].active);
            lemma_count_update(self.slots, i, slot, slot_active());
            lemma_count_update(self.slots, i, slot, slot_occupied());
            assert forall|k: int| 0 <= k < w.free.len() implies (#[trigger] w.free[k])
                < w.slots.len() && w.slots[w.free[k] as int].animation is None by {
                assert(w.free[k] == self.free[k]);
                assert(self.free[k] < self.slots.len());
                assert(self.free[k] != self.free[self.free.len() - 1]);
            }
            assert forall|j: int| 0 <= j < w.slots.len() && (#[trigger] w.slots[j]).animation is None
                implies w.free.contains(j as usize) by {
                assert(self.slots[j].animation is None);
                let k = choose|k: int| 0 <= k < self.free.len() && self.free[k] == j as usize;
                if k == self.free.len() - 1 {
                    assert(j == i);
                } else {
                    assert(w.free[k] == j as usize);
                }
            }
            assert forall|j: int| 0 <= j < w.slots.len() && (#[trigger] w.slots[j]).active
                implies w.slots[j].animation is Some by {
                assert(self.slots[j].active);
            }
            assert(w.free.no_duplicates());
        } else {
            let n = self.slots.len() as int;
            assert(w.slots.drop_last() =~= self.slots);
            assert forall|k: int| 0 <= k < w.free.len() implies (#[trigger] w.free[k])
                < w.slots.len() && w.slots[w.free[k] as int].animation is None by {
                assert(self.free[k] < self.slots.len());
            }
            assert forall|j: int| 0 <= j < w.slots.len() && (#[trigger] w.slots[j]).animation is None
                implies w.free.contains(j as usize) by {
                assert(j < n);
                assert(self.slots[j].animation is None);
            }
            assert forall|j: int| 0 <= j < w.slots.len() && (#[trigger] w.slots[j]).active
                implies w.slots[j].animation is Some by {
                assert(j < n);
                assert(self.slots[j].active);
            }
        }
    }
}

/// Stores animations, advances active values, and queues lifecycle events.
pub struct MotionRuntime<A> {
    slots: Vec<AnimationSlot<A>>,
    free: Vec<usize>,
    active: Vec<MotionId>,
    next_active: Vec<MotionId>,
    events: Vec<MotionEvent>,
    active_count: usize,
    motion_count: usize,
    last_tick: Option<std::time::Instant>,
    retired: Vec<u64>,
}

impl<A> View for MotionRuntime<A> {
    type V = RuntimeView<A>;

    closed spec fn view(&self) -> RuntimeView<A> {
        RuntimeView {
            slots: self.slots@,
            free: self.free@,
            queue: self.active@,
            events: self.events@,
            active_count: self.active_count as nat,
            motion_count: self.motion_count as nat,
            last_tick: self.last_tick,
            retired: self.retired@,
        }
    }
}

} // verus!

verus! {

impl<A: AnimationDyn> MotionRuntime<A> {
    /// The runtime's storage, counters, free list and tick schedule agree, and
    /// every slot counts as active exactly when its animation is.
    pub open spec fn wf(&self) -> bool {
        &&& self@.wf()
        &&& self@.activity_consistent()
        &&& self@.schedule_wf()
    }

    /// Creates an empty motion runtime.
    pub fn new() -> (r: Self)
        ensures
            r@.slots.len() == 0,
            r@.free.len() == 0,
            r@.queue.len() == 0,
            r@.events.len() == 0,
            r@.active_count == 0,
            r@.motion_count == 0,
            r@.retired.len() == 0,
            !r@.clock_set(),
            r.wf(),
    {
        let r = MotionRuntime {
            slots: Vec::new(),
            free: Vec::new(),
            active: Vec::new(),
            next_active: Vec::new(),
            events: Vec::new(),
            active_count: 0,
            motion_count: 0,
            last_tick: None,
            retired: Vec::new(),
        };
        proof {
            assert(r@.free.no_duplicates());
        }
        r
    }

    /// Looks up the animation stored for `id`.
    fn lookup(&self, id: MotionId) -> (r: Result<(), MotionError>)
        ensures
            r == self@.lookup(id),
    {
        let slot = id.slot();
        if slot >= self.slots.len() {
            return Err(MotionError::SlotOutOfBounds { slot });
        }
        let generation = self.slots[slot].generation;
        if generation != id.generation() {
            return Err(
                MotionError::StaleHandle {
                    slot,
                    handle_generation: id.generation(),
                    actual_generation: generation,
                },
            );
        }
        if self.slots[slot].animation.is_none() {
            return Err(MotionError::Removed { slot });
        }
        Ok(())
    }

    /// Returns the animation stored for `motion`.
    pub fn animation<T>(&self, motion: Motion<T>) -> (r: Result<&A, MotionError>)
        ensures
            r is Ok <==> self@.lookup(motion.spec_id()) is Ok,
            r matches Err(e) ==> self@.lookup(motion.spec_id()) == Err::<(), MotionError>(e),
            r matches Ok(a) ==> *a == self@.animation_of(motion.spec_id()),
    {
        let id = motion.motion_id();
        match self.lookup(id) {
            Err(e) => Err(e),
            Ok(()) => {
                match &self.slots[id.slot()].animation {
                    Some(a) => Ok(a),
                    None => Err(MotionError::Removed { slot: id.slot() }),
                }
            },
        }
    }

    fn current_playback(&self, id: MotionId) -> (r: PlaybackId)
        requires
            id.spec_slot() < self@.slots.len(),
        ensures
            r == self@.current_playback(id),
    {
        PlaybackId::new(id, self.slots[id.slot()].playback_revision)
    }

    fn start_playback(&mut self, id: MotionId) -> (r: PlaybackId)
        requires
            id.spec_slot() < old(self)@.slots.len(),
        ensures
            final(self)@ == old(self)@.start_playback(id),
            r == final(self)@.current_playback(id),
            old(self)@.schedule_wf() ==> final(self)@.schedule_wf(),
    {
        proof {
            if old(self)@.schedule_wf() {
                old(self)@.lemma_sched_bookkeeping(id, AnimationState::Idle, InterruptionReason::Replaced);
            }
        }
        let i = id.slot();
        let revision = self.slots[i].playback_revision;
        let next = if revision == u64::MAX {
            0
        } else {
            revision + 1
        };
        self.slots[i].playback_revision = next;
        self.slots[i].terminal_emitted = false;
        proof {
            assert(self@.slots =~= old(self)@.start_playback(id).slots);
        }
        PlaybackId::new(id, next)
    }

    fn record_terminal(&mut self, id: MotionId, state: AnimationState)
        requires
            id.spec_slot() < old(self)@.slots.len(),
        ensures
            final(self)@ == old(self)@.record_terminal(id, state),
            final(self).next_active@ == old(self).next_active@,
            old(self)@.schedule_wf() ==> final(self)@.schedule_wf(),
    {
        proof {
            if old(self)@.schedule_wf() {
                old(self)@.lemma_sched_bookkeeping(id, state, InterruptionReason::Replaced);
            }
        }
        let kind = match state {
            AnimationState::Completed => MotionEventKind::Completed,
            AnimationState::Canceled => MotionEventKind::Canceled,
            _ => return,
        };
        let i = id.slot();
        if self.slots[i].generation != id.generation() || self.slots[i].terminal_emitted {
            return;
        }
        self.slots[i].terminal_emitted = true;
        let playback = PlaybackId::new(id, self.slots[i].playback_revision);
        self.events.push(MotionEvent::new(playback, kind));
        proof {
            assert(self@.slots =~= old(self)@.record_terminal(id, state).slots);
            assert(self@.events =~= old(self)@.record_terminal(id, state).events);
        }
    }

    fn record_interruption(
        &mut self,
        id: MotionId,
        state: AnimationState,
        reason: InterruptionReason,
    )
        requires
            id.spec_slot() < old(self)@.slots.len(),
        ensures
            final(self)@ == old(self)@.record_interruption(id, state, reason),
            old(self)@.schedule_wf() ==> final(self)@.schedule_wf(),
    {
        proof {
            if old(self)@.schedule_wf() {
                old(self)@.lemma_sched_bookkeeping(id, state, reason);
            }
        }
        match state {
            AnimationState::Running | AnimationState::Paused => {},
            _ => return,
        }
        let i = id.slot();
        if self.slots[i].generation != id.generation() || self.slots[i].terminal_emitted {
            return;
        }
        self.slots[i].terminal_emitted = true;
        let playback = PlaybackId::new(id, self.slots[i].playback_revision);
        self.events.push(MotionEvent::new(playback, MotionEventKind::Interrupted(reason)));
        proof {
            assert(self@.slots =~= old(self)@.record_interruption(id, state, reason).slots);
            assert(self@.events =~= old(self)@.record_interruption(id, state, reason).events);
        }
    }

    fn activate(&mut self, id: MotionId)
        requires
            old(self)@.wf(),
        ensures
            final(self)@ == old(self)@.activate(id),
    {
        let i = id.slot();
        if i >= self.slots.len() {
            return;
        }
        if self.slots[i].generation != id.generation() || self.slots[i].animation.is_none() {
            return;
        }
        proof {
            let x = AnimationSlot { active: true, ..self@.slots[i as int] };
            lemma_count_update(self@.slots, i as int, x, slot_active());
            lemma_count_bound(self@.slots.update(i as int, x), slot_active());
        }
        if self.active_count == 0 {
            self.last_tick = None;
        }
        if !self.slots[i].active {
            self.slots[i].active = true;
            self.active_count = self.active_count + 1;
        }
        if !self.slots[i].queued {
            self.slots[i].queued = true;
            self.active.push(id);
        }
        proof {
            assert(self@.slots =~= old(self)@.activate(id).slots);
            assert(self@.queue =~= old(self)@.activate(id).queue);
        }
    }

    fn deactivate(&mut self, id: MotionId)
        requires
            old(self)@.wf(),
        ensures
            final(self)@ == old(self)@.deactivate(id),
    {
        let i = id.slot();
        if i >= self.slots.len() {
            return;
        }
        if self.slots[i].generation != id.generation() || !self.slots[i].active {
            return;
        }
        proof {
            lemma_count_positive(self@.slots, i as int, slot_active());
            let x = AnimationSlot { active: false, ..old(self)@.slots[i as int] };
            old(self)@.lemma_wf_inactive(i as int, x);
        }
        self.slots[i].active = false;
        self.active_count = self.active_count - 1;
        let ghost inactive = self@;
        proof {
            let x = AnimationSlot { active: false, ..old(self)@.slots[i as int] };
            assert(inactive.slots =~= old(self)@.with_slot(i as int, x).slots);
            assert(old(self)@.deactivate(id) == inactive.idle_schedule()) by {
                assert(old(self)@.deactivate(id).slots =~= inactive.idle_schedule().slots);
            }
        }
        self.clear_schedule();
    }

    fn drop_slot(&mut self, id: MotionId, reason: RemovalReason)
        requires
            old(self)@.wf(),
            old(self)@.lookup(id) is Ok,
        ensures
            final(self)@ == old(self)@.drop_slot(id, reason),
            final(self)@.wf(),
            final(self).next_active@ == old(self).next_active@,
    {
        proof {
            old(self)@.lemma_wf_drop_slot(id, reason);
            lemma_count_positive(self@.slots, id.spec_slot() as int, slot_occupied());
            if self@.slots[id.spec_slot() as int].active {
                lemma_count_positive(self@.slots, id.spec_slot() as int, slot_active());
            }
        }
        let playback = self.current_playback(id);
        let i = id.slot();
        let was_active = self.slots[i].active;
        self.slots[i].animation = None;
        self.slots[i].active = false;
        self.slots[i].queued = false;
        if was_active {
            self.active_count = self.active_count - 1;
        }
        self.motion_count = self.motion_count - 1;
        self.free.push(i);
        self.events.push(MotionEvent::new(playback, MotionEventKind::Removed(reason)));
        proof {
            assert(self@.slots =~= old(self)@.drop_slot(id, reason).slots);
            assert(self@.free =~= old(self)@.drop_slot(id, reason).free);
            assert(self@.events =~= old(self)@.drop_slot(id, reason).events);
        }
    }

    /// Takes the entry of `id` out of the tick queue.
    fn unschedule(&mut self, id: MotionId)
        requires
            old(self)@.wf(),
            old(self)@.queue.no_duplicates(),
            id.spec_slot() < old(self)@.slots.len(),
        ensures
            final(self)@ == old(self)@.unschedule(id),
            final(self)@.wf(),
            final(self).next_active@ == old(self).next_active@,
    {
        proof {
            old(self)@.lemma_wf_unschedule(id);
        }
        let n = self.active.len();
        let mut k: usize = 0;
        while k < n
            invariant
                n == self.active.len(),
                k <= n,
                self@ == old(self)@,
                old(self)@.wf(),
                id.spec_slot() < self.slots@.len(),
                old(self)@.queue.no_duplicates(),
                self.next_active@ == old(self).next_active@,
                forall|j: int| 0 <= j < k ==> self.active@[j] != id,
            decreases n - k,
        {
            if self.active[k] == id {
                proof {
                    old(self)@.lemma_wf_unschedule(id);
                }
                let i = id.slot();
                let ghost q = self.active@;
                let removed = self.active.remove(k);
                self.slots[i].queued = false;
                proof {
                    let c = choose|c: int| 0 <= c < q.len() && q[c] == id;
                    assert(q[k as int] == id);
                    assert(c == k) by {
                        if c != k as int {
                            assert(q.no_duplicates());
                        }
                    }
                    assert(self@.queue =~= old(self)@.unschedule(id).queue);
                    assert(self@.slots =~= old(self)@.unschedule(id).slots);
                    assert(self@ == old(self)@.unschedule(id));
                }
                return;
            }
            k = k + 1;
        }
        proof {
            assert(!old(self)@.queue.contains(id)) by {
                if old(self)@.queue.contains(id) {
                    let c = choose|c: int| 0 <= c < old(self)@.queue.len() && old(self)@.queue[c] == id;
                    assert(self.active@[c] != id);
                }
            }
        }
    }

    /// Clears the tick queue and clock once nothing is active, unqueuing every slot.
    fn clear_schedule(&mut self)
        requires
            old(self)@.wf(),
        ensures
            final(self)@ == old(self)@.idle_schedule(),
            final(self)@.wf(),
    {
        proof {
            old(self)@.lemma_wf_idle_schedule();
        }
        if self.active_count != 0 {
            return;
        }
        let ghost before = self@.slots;
        let n = self.active.len();
        let mut k: usize = 0;
        while k < n
            invariant
                n == self.active.len(),
                k <= n,
                self.slots@.len() == before.len(),
                before == old(self)@.slots,
                self.active@ == old(self)@.queue,
                self.free@ == old(self)@.free,
                self.events@ == old(self)@.events,
                self.motion_count == old(self).motion_count,
                self.active_count == old(self).active_count,
                self.last_tick == old(self).last_tick,
                self.retired@ == old(self)@.retired,
                forall|j: int|
                    0 <= j < before.len() ==> {
                        let q = self.active@.subrange(0, k as int).contains(
                            MotionId::spec_new(j as usize, before[j].generation),
                        );
                        #[trigger] self.slots@[j] == if q {
                            AnimationSlot { queued: false, ..before[j] }
                        } else {
                            before[j]
                        }
                    },
            decreases n - k,
        {
            let entry = self.active[k];
            let s = entry.slot();
            let ghost mid = self.slots@;
            let matched = s < self.slots.len() && self.slots[s].generation == entry.generation();
            if matched {
                self.slots[s].queued = false;
            }
            proof {
                let sub = self.active@.subrange(0, k as int);
                let sub2 = self.active@.subrange(0, k + 1);
                assert(sub2 =~= sub.push(entry));
                assert forall|j: int| 0 <= j < before.len() implies {
                    let q = sub2.contains(MotionId::spec_new(j as usize, before[j].generation));
                    #[trigger] self.slots@[j] == if q {
                        AnimationSlot { queued: false, ..before[j] }
                    } else {
                        before[j]
                    }
                } by {
                    let idj = MotionId::spec_new(j as usize, before[j].generation);
                    MotionId::lemma_eq(entry, idj);
                    MotionId::lemma_new(j as usize, before[j].generation);
                    assert(mid[j].generation == before[j].generation);
                    assert(sub2.contains(idj) <==> (sub.contains(idj) || entry == idj)) by {
                        if sub2.contains(idj) && !sub.contains(idj) {
                            let w = choose|w: int| 0 <= w < sub2.len() && sub2[w] == idj;
                            if w < sub.len() {
                                assert(sub[w] == idj);
                            }
                        }
                        if sub.contains(idj) {
                            let w = choose|w: int| 0 <= w < sub.len() && sub[w] == idj;
                            assert(sub2[w] == idj);
                        }
                        if entry == idj {
                            assert(sub2[k as int] == idj);
                        }
                    }
                    if matched && j == s as int {
                        assert(entry == idj);
                    } else {
                        assert(self.slots@[j] == mid[j]);
                        if entry == idj {
                            assert(j == s as int);
                        }
                    }
                }
            }
            k = k + 1;
        }
        proof {
            assert(self.active@.subrange(0, n as int) =~= old(self)@.queue);
        }
        self.active.clear();
        self.next_active.clear();
        self.last_tick = None;
        proof {
            let target = old(self)@.idle_schedule();
            assert(self@.slots =~= target.slots);
            assert(self@.queue =~= target.queue);
        }
    }

    /// Removes the animation of `id`, frees its slot and records the removal.
    fn remove_slot(&mut self, id: MotionId, reason: RemovalReason)
        requires
            old(self)@.wf(),
            old(self)@.queue.no_duplicates(),
            old(self)@.lookup(id) is Ok,
        ensures
            final(self)@ == old(self)@.remove_slot(id, reason),
            final(self)@.wf(),
            old(self)@.schedule_wf() ==> final(self)@.schedule_wf(),
    {
        proof {
            old(self)@.lemma_wf_unschedule(id);
            if old(self)@.schedule_wf() {
                old(self)@.lemma_sched_remove_slot(id, reason);
            }
        }
        self.unschedule(id);
        self.drop_slot(id, reason);
        self.clear_schedule();
    }

    /// Settles the animation of `id` after it changed.
    fn sync_slot_after_change(&mut self, id: MotionId)
        requires
            old(self)@.wf(),
            old(self)@.schedule_wf(),
            old(self)@.lookup(id) is Ok,
        ensures
            final(self)@.wf(),
            final(self)@.schedule_wf(),
            exists|c: A|
                c.spec_state() == old(self)@.state_of(id) && c.spec_current_value() == old(self)@.animation_of(id).spec_current_value() && c.spec_active() == old(self)@.animation_of(id).spec_active() && final(self)@ == old(self)@.settle(
                    id,
                    old(self)@.animation_of(id).spec_active(),
                    old(self)@.state_of(id),
                    c,
                ),
    {
        let i = id.slot();
        let (active, state) = match &self.slots[i].animation {
            Some(animation) => (animation.is_active(), animation.state()),
            None => return ,
        };
        let ghost compacted = self@.animation_of(id);
        proof {
            old(self)@.lemma_wf_settle(id, active, state, compacted);
            old(self)@.lemma_sched_settle(id, active, state, compacted);
        }
        if active {
            self.activate(id);
            assert(self@ == old(self)@.settle(id, active, state, compacted));
            return ;
        }
        proof {
            old(self)@.lemma_wf_deactivate(id);
        }
        self.deactivate(id);
        self.record_terminal(id, state);
        let drop = match self.slots[i].retain_policy {
            RetainPolicy::DropWhenSettled => true,
            RetainPolicy::Keep => false,
        };
        let settled = match state {
            AnimationState::Completed | AnimationState::Canceled => true,
            _ => false,
        };
        if drop && settled {
            proof {
                old(self)@.deactivate(id).lemma_wf_record_terminal(id, state);
                old(self)@.lemma_sched_deactivate(id);
            }
            self.remove_slot(id, RemovalReason::Settled);
            assert(self@ == old(self)@.settle(id, active, state, compacted));
        } else {
            let animation = self.slots[i].animation.take().unwrap();
            let animation = animation.compact();
            let ghost c = animation;
            self.slots[i].animation = Some(animation);
            proof {
                old(self)@.lemma_wf_settle(id, active, state, c);
                old(self)@.lemma_sched_settle(id, active, state, c);
                assert(self@.slots =~= old(self)@.settle(id, active, state, c).slots);
                assert(self@ == old(self)@.settle(id, active, state, c));
            }
        }
    }

    /// Inserts an animation with transition timing and a retention policy.
    pub fn insert_with_policy(
        &mut self,
        animation: A,
        transition: Timing,
        retain_policy: RetainPolicy,
    ) -> (r: Motion<A::Target>)
        requires
            old(self).wf(),
            old(self)@.slots.len() < usize::MAX,
        ensures
            r.spec_id() == old(self)@.next_id(),
            final(self).wf(),
            old(self)@.events.is_prefix_of(final(self)@.events),
            exists|stored: A|
                stored.spec_state() == animation.spec_state() && stored.spec_current_value() == animation.spec_current_value() && stored.spec_active() == animation.spec_active() && #[trigger] old(self)@.insert_slot(
                    stored,
                    transition,
                    retain_policy,
                ).settled_with(r.spec_id(), stored, final(self)@),
    {
        let animation = animation.compact();
        let ghost stored = animation;
        let ghost id_spec = self@.next_id();
        let ghost inserted = self@.insert_slot(stored, transition, retain_policy);
        proof {
            self@.lemma_wf_insert_slot(stored, transition, retain_policy);
            self@.lemma_sched_insert_slot(stored, transition, retain_policy);
        }
        let id = match self.free.pop() {
            Some(slot_index) => {
                let generation = self.slots[slot_index].generation;
                let next = if generation == u64::MAX {
                    0
                } else {
                    generation + 1
                };
                self.slots[slot_index].generation = next;
                self.slots[slot_index].playback_revision = 0;
                self.slots[slot_index].terminal_emitted = false;
                self.slots[slot_index].transition = transition;
                self.slots[slot_index].retain_policy = retain_policy;
                self.slots[slot_index].animation = Some(animation);
                self.slots[slot_index].active = false;
                self.slots[slot_index].queued = false;
                MotionId::new(slot_index, next)
            },
            None => {
                let slot = self.slots.len();
                let generation = if slot < self.retired.len() {
                    let last = self.retired[slot];
                    if last == u64::MAX {
                        0
                    } else {
                        last + 1
                    }
                } else {
                    self.retired.push(0);
                    0
                };
                self.slots.push(
                    AnimationSlot {
                        generation,
                        playback_revision: 0,
                        terminal_emitted: false,
                        transition,
                        retain_policy,
                        animation: Some(animation),
                        active: false,
                        queued: false,
                    },
                );
                MotionId::new(slot, generation)
            },
        };
        proof {
            lemma_count_bound(old(self)@.slots, slot_occupied());
        }
        self.motion_count = self.motion_count + 1;
        proof {
            assert(id == id_spec);
            assert(self@.slots =~= inserted.slots);
            assert(self@.free =~= inserted.free);
            assert(self@ == inserted);
        }
        let motion = Motion::new(id);
        proof {
            assert(inserted.slot_of(id) == AnimationSlot { animation: Some(stored), ..inserted.slot_of(id) });
            assert(inserted.with_animation(id, stored).slots =~= inserted.slots);
            assert(inserted.with_animation(id, stored) == inserted);
        }
        self.sync_slot_after_change(id);
        proof {
            assert(inserted.animation_of(id) == stored);
            let c = choose|c: A|
                c.spec_state() == inserted.state_of(id) && c.spec_current_value() == inserted.animation_of(id).spec_current_value() && c.spec_active() == inserted.animation_of(id).spec_active() && self@ == inserted.settle(
                    id,
                    inserted.animation_of(id).spec_active(),
                    inserted.state_of(id),
                    c,
                );
            assert(inserted.settled_with(id, stored, self@));
            old(self)@.lemma_consistent_except(id, inserted);
            inserted.lemma_settled_with_consistent(id, stored, self@);
            lemma_settled_with_appends(inserted, id, stored, self@);
        }
        motion
    }

    /// Inserts an animation that remains stored after it settles.
    pub fn insert(&mut self, animation: A, transition: Timing) -> (r: Motion<A::Target>)
        requires
            old(self).wf(),
            old(self)@.slots.len() < usize::MAX,
        ensures
            r.spec_id() == old(self)@.next_id(),
            final(self).wf(),
            old(self)@.events.is_prefix_of(final(self)@.events),
            exists|stored: A|
                stored.spec_state() == animation.spec_state() && stored.spec_current_value() == animation.spec_current_value() && stored.spec_active() == animation.spec_active() && #[trigger] old(self)@.insert_slot(
                    stored,
                    transition,
                    RetainPolicy::Keep,
                ).settled_with(r.spec_id(), stored, final(self)@),
    {
        self.insert_with_policy(animation, transition, RetainPolicy::Keep)
    }

    /// Inserts an animation that is removed after it settles.
    pub fn play_once(&mut self, animation: A) -> (r: Motion<A::Target>)
        requires
            old(self).wf(),
            old(self)@.slots.len() < usize::MAX,
        ensures
            r.spec_id() == old(self)@.next_id(),
            final(self).wf(),
            old(self)@.events.is_prefix_of(final(self)@.events),
            exists|stored: A|
                stored.spec_state() == animation.spec_state() && stored.spec_current_value() == animation.spec_current_value() && stored.spec_active() == animation.spec_active() && #[trigger] old(self)@.insert_slot(
                    stored,
                    Timing::spec_linear(Duration::spec_from_nanos(0)),
                    RetainPolicy::DropWhenSettled,
                ).settled_with(r.spec_id(), stored, final(self)@),
    {
        self.insert_with_policy(animation, Timing::default(), RetainPolicy::DropWhenSettled)
    }

    /// Removes the animation referenced by `motion`.
    ///
    /// An unfinished playback first reports its interruption; the removal itself is
    /// always reported.
    pub fn remove<T>(&mut self, motion: Motion<T>) -> (r: Result<(), MotionError>)
        requires
            old(self).wf(),
        ensures
            final(self).wf(),
            old(self)@.events.is_prefix_of(final(self)@.events),
            r == old(self)@.lookup(motion.spec_id()),
            r is Err ==> final(self)@ == old(self)@,
            r is Ok ==> final(self)@ == old(self)@.record_interruption(
                motion.spec_id(),
                old(self)@.state_of(motion.spec_id()),
                InterruptionReason::Removed,
            ).remove_slot(motion.spec_id(), RemovalReason::Explicit),
    {
        let id = motion.motion_id();
        let state = match self.animation(motion) {
            Ok(animation) => animation.state(),
            Err(e) => return Err(e),
        };
        proof {
            old(self)@.lemma_wf_record_interruption(id, state, InterruptionReason::Removed);
        }
        self.record_interruption(id, state, InterruptionReason::Removed);
        let ghost interrupted = self@;
        self.remove_slot(id, RemovalReason::Explicit);
        proof {
            lemma_removal_appends(old(self)@, id, state);
            old(self)@.lemma_consistent_except(id, self@);
            self@.lemma_consistent_at(id);
        }
        Ok(())
    }

    fn replace(&mut self, id: MotionId, animation: A, reason: InterruptionReason) -> (r: Result<
        PlaybackId,
        MotionError,
    >)
        requires
            old(self)@.wf(),
            old(self)@.schedule_wf(),
            old(self)@.consistent_except(id),
        ensures
            final(self)@.wf(),
            final(self)@.schedule_wf(),
            old(self)@.events.is_prefix_of(final(self)@.events),
            r is Err ==> final(self)@ == old(self)@ && r == Err::<PlaybackId, MotionError>(
                old(self)@.lookup(id)->Err_0,
            ),
            r is Ok ==> final(self)@.activity_consistent(),
            r is Ok <==> old(self)@.lookup(id) is Ok,
            r matches Ok(p) ==> {
                &&& p == PlaybackId::spec_new(
                    id,
                    RuntimeView::<A>::next_revision(old(self)@.slot_of(id).playback_revision),
                )
                &&& old(self)@.record_interruption(
                    id,
                    old(self)@.state_of(id),
                    reason,
                ).start_playback(id).settled_with(id, animation, final(self)@)
            },
    {
        let previous_state = match self.lookup(id) {
            Ok(()) => {
                match &self.slots[id.slot()].animation {
                    Some(a) => a.state(),
                    None => return Err(MotionError::Removed { slot: id.slot() }),
                }
            },
            Err(e) => return Err(e),
        };
        proof {
            old(self)@.lemma_wf_record_interruption(id, previous_state, reason);
        }
        self.record_interruption(id, previous_state, reason);
        proof {
            self@.lemma_wf_start_playback(id);
        }
        let playback = self.start_playback(id);
        let ghost started = self@;
        let i = id.slot();
        self.slots[i].animation = Some(animation);
        proof {
            started.lemma_wf_same_shape(i as int, AnimationSlot { animation: Some(animation), ..started.slot_of(id) });
            started.lemma_sched_with_animation(id, animation);
            assert(self@.slots =~= started.with_animation(id, animation).slots);
            assert(self@ == started.with_animation(id, animation));
        }
        self.sync_slot_after_change(id);
        proof {
            let w = started.with_animation(id, animation);
            assert(w.animation_of(id) == animation);
            let c = choose|c: A|
                c.spec_state() == w.state_of(id) && c.spec_current_value() == w.animation_of(id).spec_current_value() && c.spec_active() == w.animation_of(id).spec_active() && self@ == w.settle(
                    id,
                    w.animation_of(id).spec_active(),
                    w.state_of(id),
                    c,
                );
            assert(started.settled_with(id, animation, self@));
            old(self)@.lemma_consistent_except(id, started);
            started.lemma_settled_with_consistent(id, animation, self@);
            lemma_events_are_appended(old(self)@, id, previous_state, reason, animation, self@);
        }
        Ok(playback)
    }

    /// Replaces the animation of `motion` and returns its new playback ID.
    ///
    /// An unfinished previous playback reports that it was replaced.
    pub fn play_tracked<T>(&mut self, motion: Motion<T>, animation: A) -> (r: Result<
        PlaybackId,
        MotionError,
    >)
        requires
            old(self).wf(),
        ensures
            final(self).wf(),
            old(self)@.events.is_prefix_of(final(self)@.events),
            r is Ok <==> old(self)@.lookup(motion.spec_id()) is Ok,
            r is Err ==> final(self)@ == old(self)@ && r == Err::<PlaybackId, MotionError>(
                old(self)@.lookup(motion.spec_id())->Err_0,
            ),
            r matches Ok(p) ==> {
                &&& p == PlaybackId::spec_new(
                    motion.spec_id(),
                    RuntimeView::<A>::next_revision(
                        old(self)@.slot_of(motion.spec_id()).playback_revision,
                    ),
                )
                &&& old(self)@.record_interruption(
                    motion.spec_id(),
                    old(self)@.state_of(motion.spec_id()),
                    InterruptionReason::Replaced,
                ).start_playback(motion.spec_id()).settled_with(
                    motion.spec_id(),
                    animation,
                    final(self)@,
                )
            },
    {
        self.replace(motion.motion_id(), animation, InterruptionReason::Replaced)
    }

    /// Replaces the animation of `motion`.
    pub fn play<T>(&mut self, motion: Motion<T>, animation: A) -> (r: Result<(), MotionError>)
        requires
            old(self).wf(),
        ensures
            final(self).wf(),
            old(self)@.events.is_prefix_of(final(self)@.events),
            r == old(self)@.lookup(motion.spec_id()),
            r is Err ==> final(self)@ == old(self)@,
            r is Ok ==> old(self)@.record_interruption(
                motion.spec_id(),
                old(self)@.state_of(motion.spec_id()),
                InterruptionReason::Replaced,
            ).start_playback(motion.spec_id()).settled_with(
                motion.spec_id(),
                animation,
                final(self)@,
            ),
    {
        match self.play_tracked(motion, animation) {
            Ok(_) => Ok(()),
            Err(e) => Err(e),
        }
    }

    /// Applies a command to `motion` and settles the result.
    pub fn command<T>(&mut self, motion: Motion<T>, command: A::Command) -> (r: Result<
        (),
        MotionError,
    >)
        requires
            old(self).wf(),
        ensures
            final(self).wf(),
            old(self)@.events.is_prefix_of(final(self)@.events),
            r == old(self)@.lookup(motion.spec_id()),
            r is Err ==> final(self)@ == old(self)@,
            r is Ok ==> old(self)@.commanded_to(motion.spec_id(), command, final(self)@),
    {
        let id = motion.motion_id();
        match self.lookup(id) {
            Ok(()) => {},
            Err(e) => return Err(e),
        }
        let i = id.slot();
        let mut animation = self.slots[i].animation.take().unwrap();
        let ghost before_command = animation;
        animation.command(command);
        let ghost commanded = animation;
        self.slots[i].animation = Some(animation);
        proof {
            old(self)@.lemma_wf_same_shape(i as int, AnimationSlot { animation: Some(commanded), ..old(self)@.slot_of(id) });
            old(self)@.lemma_sched_with_animation(id, commanded);
            assert(self@.slots =~= old(self)@.with_animation(id, commanded).slots);
            assert(self@ == old(self)@.with_animation(id, commanded));
        }
        self.sync_slot_after_change(id);
        proof {
            let w = old(self)@.with_animation(id, commanded);
            assert(w.animation_of(id) == commanded);
            let c = choose|c: A|
                c.spec_state() == w.state_of(id) && c.spec_current_value() == w.animation_of(id).spec_current_value() && c.spec_active() == w.animation_of(id).spec_active() && self@ == w.settle(
                    id,
                    w.animation_of(id).spec_active(),
                    w.state_of(id),
                    c,
                );
            assert(old(self)@.settled_with(id, commanded, self@));
            assert(before_command == old(self)@.animation_of(id));
            old(self)@.lemma_settled_with_consistent(id, commanded, self@);
            lemma_settled_with_appends(old(self)@, id, commanded, self@);
        }
        Ok(())
    }

    /// Returns the lifecycle state for `motion`.
    pub fn state<T>(&self, motion: Motion<T>) -> (r: Result<AnimationState, MotionError>)
        ensures
            r is Ok <==> self@.lookup(motion.spec_id()) is Ok,
            r matches Err(e) ==> self@.lookup(motion.spec_id()) == Err::<(), MotionError>(e),
            r matches Ok(st) ==> st == self@.state_of(motion.spec_id()),
    {
        match self.animation(motion) {
            Ok(a) => Ok(a.state()),
            Err(e) => Err(e),
        }
    }

    /// Returns whether `motion` is active.
    pub fn is_active<T>(&self, motion: Motion<T>) -> (r: Result<bool, MotionError>)
        ensures
            r is Ok <==> self@.lookup(motion.spec_id()) is Ok,
            r matches Err(e) ==> self@.lookup(motion.spec_id()) == Err::<(), MotionError>(e),
            r matches Ok(b) ==> b == self@.animation_of(motion.spec_id()).spec_active(),
    {
        match self.animation(motion) {
            Ok(a) => Ok(a.is_active()),
            Err(e) => Err(e),
        }
    }

    /// Returns whether the motion completed.
    pub fn is_completed<T>(&self, motion: Motion<T>) -> (r: Result<bool, MotionError>)
        ensures
            r is Ok <==> self@.lookup(motion.spec_id()) is Ok,
            r matches Err(e) ==> self@.lookup(motion.spec_id()) == Err::<(), MotionError>(e),
            r matches Ok(b) ==> b == (self@.state_of(motion.spec_id()) == AnimationState::Completed),
    {
        match self.state(motion) {
            Ok(AnimationState::Completed) => Ok(true),
            Ok(_) => Ok(false),
            Err(e) => Err(e),
        }
    }

    /// Returns the ID of the motion's current playback.
    pub fn playback<T>(&self, motion: Motion<T>) -> (r: Result<PlaybackId, MotionError>)
        ensures
            r is Ok <==> self@.lookup(motion.spec_id()) is Ok,
            r matches Err(e) ==> self@.lookup(motion.spec_id()) == Err::<(), MotionError>(e),
            r matches Ok(p) ==> p == self@.current_playback(motion.spec_id()),
    {
        let id = motion.motion_id();
        match self.lookup(id) {
            Ok(()) => Ok(self.current_playback(id)),
            Err(e) => Err(e),
        }
    }

    /// Returns the transition timing stored for `motion`.
    pub fn transition_timing<T>(&self, motion: Motion<T>) -> (r: Result<Timing, MotionError>)
        ensures
            r is Ok <==> self@.lookup(motion.spec_id()) is Ok,
            r matches Err(e) ==> self@.lookup(motion.spec_id()) == Err::<(), MotionError>(e),
            r matches Ok(t) ==> t == self@.slot_of(motion.spec_id()).transition,
    {
        let id = motion.motion_id();
        match self.lookup(id) {
            Ok(()) => Ok(self.slots[id.slot()].transition),
            Err(e) => Err(e),
        }
    }

    /// Returns queued lifecycle events without consuming them.
    pub fn events(&self) -> (r: &[MotionEvent])
        ensures
            r@ == self@.events,
    {
        self.events.as_slice()
    }

    /// Takes all queued lifecycle events.
    ///
    /// Events remain queued until they are taken or explicitly cleared.
    pub fn take_events(&mut self) -> (r: Vec<MotionEvent>)
        requires
            old(self).wf(),
        ensures
            r@ == old(self)@.events,
            final(self)@ == old(self)@.without_events(),
            final(self).wf(),
    {
        let mut taken = Vec::new();
        std::mem::swap(&mut taken, &mut self.events);
        proof {
            assert(self@ == old(self)@.without_events());
            assert(self@.slots == old(self)@.slots);
            assert forall|i: int| 0 <= i < self@.slots.len() implies #[trigger] self@.slot_consistent(i) by {
                assert(old(self)@.slot_consistent(i));
            }
        }
        taken
    }

    /// Removes all queued lifecycle events.
    pub fn clear_events(&mut self)
        requires
            old(self).wf(),
        ensures
            final(self)@ == old(self)@.without_events(),
            final(self).wf(),
    {
        self.events.clear();
        proof {
            assert(self@ == old(self)@.without_events());
            assert(self@.slots == old(self)@.slots);
            assert forall|i: int| 0 <= i < self@.slots.len() implies #[trigger] self@.slot_consistent(i) by {
                assert(old(self)@.slot_consistent(i));
            }
        }
    }

    /// Returns the number of queued lifecycle events.
    pub fn pending_event_count(&self) -> (r: usize)
        ensures
            r == self@.events.len(),
    {
        self.events.len()
    }

    /// Returns the number of animations currently marked active.
    pub fn active_count(&self) -> (r: usize)
        ensures
            r == self@.active_count,
    {
        self.active_count
    }

    /// Returns whether at least one animation is active.
    pub fn has_active(&self) -> (r: bool)
        ensures
            r == (self@.active_count > 0),
    {
        self.active_count > 0
    }

    /// Returns the number of stored animations.
    pub fn motion_count(&self) -> (r: usize)
        ensures
            r == self@.motion_count,
    {
        self.motion_count
    }

    /// Advances every active animation by `delta`.
    ///
    /// Animations that stop being active are settled: their ending event is
    /// recorded, and they are dropped or compacted according to their policy.
    #[verifier::rlimit(40)]
    pub fn tick(&mut self, delta: Duration)
        requires
            old(self).wf(),
        ensures
            final(self).wf(),
            old(self)@.tick_frame(final(self)@),
            final(self)@.active_count == 0 ==> final(self)@.queue.len() == 0 && !final(self)@.clock_set(),
            final(self)@.active_count > 0 ==> final(self)@.last_tick == old(self)@.last_tick,
            old(self)@.keeps_unscheduled(final(self)@),
            old(self)@.settles_stopped(final(self)@),
            old(self)@.reschedules_active(final(self)@),
            old(self)@.ticks_scheduled(delta, final(self)@),
            old(self)@.ticks_active(delta, final(self)@),
            old(self)@.tick_events(final(self)@),
    {
        self.next_active.clear();
        let ghost o = old(self)@;
        let ghost q = old(self)@.queue;
        let mut index: usize = 0;
        proof {
            o.lemma_tick_schedule_start();
            assert(self.next_active@ =~= Seq::<MotionId>::empty());
        }
        while index < self.active.len()
            invariant
                self@.wf(),
                self@.activity_consistent(),
                o.schedule_wf(),
                o.slots.len() <= usize::MAX,
                o.tick_schedule(index as int, self@, self.next_active@),
                self@.queue == q,
                o == old(self)@,
                q == o.queue,
                old(self)@.tick_frame(self@),
                self@.active_count == 0 || self@.last_tick == old(self)@.last_tick,
                self@.queue == q || (self@.queue.len() == 0 && self@.active_count == 0),
                index <= q.len(),
                o.keeps_unscheduled(self@),
                o.settles_stopped(self@),
                o.slots.len() == self.slots@.len(),
                o.tick_progress(index as int, delta, self@),
                o.tick_events(self@),
                forall|i: int|
                    0 <= i < o.slots.len() && (#[trigger] self@.slots[i]).active
                        ==> self@.slots[i].terminal_emitted == o.slots[i].terminal_emitted,
                forall|k: int|
                    0 <= k < index ==> {
                        let id = #[trigger] q[k];
                        id.spec_slot() < self@.slots.len() && self@.slots[id.spec_slot() as int].generation
                            == id.spec_generation() && self@.slots[id.spec_slot() as int].active
                            ==> self.next_active@.contains(id)
                    },
            decreases if index <= self.active.len() {
                self.active.len() - index
            } else {
                0
            },
        {
            let ghost start = self@;
            let ghost start_next = self.next_active@;
            let id = self.active[index];
            let s = id.slot();
            index = index + 1;
            proof {
                assert(o.names_queued(q[index - 1]));
            }
            proof {
                assert(self@.queue == q);
                assert(q[index - 1] == id);
            }
            if s >= self.slots.len() {
                proof {
                    o.lemma_tick_progress_step(index as int, delta, start, self@, s as int);
                }
                continue;
            }
            if self.slots[s].generation != id.generation() {
                proof {
                    MotionId::lemma_eq(id, o.id_at(s as int));
                    o.lemma_tick_progress_step(index as int, delta, start, self@, s as int);
                }
                continue;
            }
            proof {
                assert(self@.queue == q);
                assert(q[index - 1] == id);
                MotionId::lemma_eq(id, o.id_at(s as int));
                assert(q.contains(o.id_at(s as int)));
            }
            let ghost before = self@;
            let ghost next_before = self.next_active@;
            self.slots[s].queued = false;
            proof {
                before.lemma_wf_same_shape(s as int, AnimationSlot { queued: false, ..before.slots[s as int] });
                assert(self@.slots =~= before.with_slot(s as int, AnimationSlot { queued: false, ..before.slots[s as int] }).slots);
                assert(old(self)@.tick_frame(self@)) by {
                    assert(self@.events == before.events);
                }
            }
            proof {
                MotionId::lemma_eq(id, o.id_at(s as int));
                if RuntimeView::<A>::scheduled_once(o.queue, o.id_at(s as int)) {
                    o.lemma_tick_unreached(index as int, delta, start, s as int);
                }
                o.lemma_tick_events_same(start, self@);
            }
            if !self.slots[s].active {
                proof {
                    o.lemma_tick_schedule_step(index as int, start, start_next, self@, self.next_active@, s as int, false);
                    o.lemma_tick_progress_step(index as int, delta, start, self@, s as int);
                    assert(start.slot_consistent(s as int));
                    start.lemma_consistent_slot_update(s as int, self@);
                }
                continue;
            }
            let ghost before = self@;
            let mut animation = self.slots[s].animation.take().unwrap();
            let ghost taken = animation;
            animation.advance(delta);
            if animation.is_active() {
                self.slots[s].animation = Some(animation);
                self.slots[s].queued = true;
                self.next_active.push(id);
                proof {
                    o.lemma_tick_schedule_step(index as int, start, start_next, self@, self.next_active@, s as int, true);
                    assert(self.next_active@ == next_before.push(id));
                    assert forall|k: int| 0 <= k < index implies {
                        let idk = #[trigger] q[k];
                        idk.spec_slot() < self@.slots.len() && self@.slots[idk.spec_slot() as int].generation
                            == idk.spec_generation() && self@.slots[idk.spec_slot() as int].active
                            ==> self.next_active@.contains(idk)
                    } by {
                        let idk = q[k];
                        if k == index - 1 {
                            assert(self.next_active@[self.next_active@.len() - 1] == id);
                        } else if idk.spec_slot() < self@.slots.len() && self@.slots[idk.spec_slot() as int].generation
                            == idk.spec_generation() && self@.slots[idk.spec_slot() as int].active {
                            assert(before.slots[idk.spec_slot() as int].active);
                            assert(next_before.contains(idk));
                            let j = choose|j: int| 0 <= j < next_before.len() && next_before[j] == idk;
                            assert(self.next_active@[j] == idk);
                        }
                    }
                    assert forall|i: int| 0 <= i < o.slots.len() && !o.queue.contains(o.id_at(i))
                        implies #[trigger] self@.slots[i] == o.slots[i] by {
                        assert(i != s);
                    }
                    let x = AnimationSlot { animation: Some(animation), queued: true, ..before.slots[s as int] };
                    before.lemma_wf_same_shape(s as int, x);
                    assert(self@.slots =~= before.with_slot(s as int, x).slots);
                    if RuntimeView::<A>::scheduled_once(o.queue, o.id_at(s as int)) {
                        assert(taken == o.slots[s as int].animation->Some_0);
                        assert(RuntimeView::<A>::ticked_slot(o.slots[s as int], delta, self@.slots[s as int])) by {
                            assert(o.slots[s as int].animation->Some_0.spec_advanced(delta, animation));
                            assert(self@.slots[s as int] == AnimationSlot {
                                animation: Some(animation),
                                queued: true,
                                ..o.slots[s as int]
                            });
                        }
                    }
                    o.lemma_tick_progress_step(index as int, delta, start, self@, s as int);
                    start.lemma_consistent_slot_update(s as int, self@);
                    o.lemma_tick_events_same(start, self@);
                    assert(old(self)@.tick_frame(self@)) by {
                        assert(self@.events == before.events);
                        assert forall|i: int| 0 <= i < old(self)@.slots.len() implies {
                            &&& (#[trigger] self@.slots[i]).generation == old(self)@.slots[i].generation
                            &&& self@.slots[i].playback_revision == old(self)@.slots[i].playback_revision
                            &&& self@.slots[i].animation is Some ==> old(self)@.slots[i].animation is Some
                            &&& !old(self)@.slots[i].active ==> self@.slots[i].animation == old(self)@.slots[i].animation
                                && !self@.slots[i].active
                        } by {
                            assert(before.slots[i].generation == old(self)@.slots[i].generation);
                        }
                    }
                }
                continue;
            }
            let state = animation.state();
            let ghost advanced = animation;
            self.slots[s].animation = Some(animation);
            self.slots[s].active = false;
            proof {
                let x = AnimationSlot { animation: Some(animation), active: false, ..before.slots[s as int] };
                before.lemma_wf_inactive(s as int, x);
                lemma_count_positive(before.slots, s as int, slot_active());
            }
            self.active_count = self.active_count - 1;
            let ghost mid = self@;
            proof {
                let x = AnimationSlot { animation: Some(animation), active: false, ..before.slots[s as int] };
                assert(self@.slots =~= before.with_slot(s as int, x).slots);
                assert(mid.wf());
                mid.lemma_wf_record_terminal(id, state);
            }
            self.record_terminal(id, state);
            let drop = match self.slots[s].retain_policy {
                RetainPolicy::DropWhenSettled => true,
                RetainPolicy::Keep => false,
            };
            let settled = match state {
                AnimationState::Completed | AnimationState::Canceled => true,
                _ => false,
            };
            let ghost recorded = self@;
            if drop && settled {
                self.drop_slot(id, RemovalReason::Settled);
            } else {
                let animation = self.slots[s].animation.take().unwrap();
                let animation = animation.compact();
                self.slots[s].animation = Some(animation);
                proof {
                    let x = AnimationSlot { animation: Some(animation), ..recorded.slots[s as int] };
                    recorded.lemma_wf_same_shape(s as int, x);
                    assert(self@.slots =~= recorded.with_slot(s as int, x).slots);
                }
            }
            proof {
                assert(old(self)@.events.is_prefix_of(self@.events)) by {
                    assert(before.events.is_prefix_of(recorded.events));
                    assert(recorded.events.is_prefix_of(self@.events));
                }
                assert(mid.events == before.events);
                assert(recorded == mid.record_terminal(id, state));
                assert(before.events == start.events);
                assert forall|k: int|
                    old(self)@.events.len() <= k < self@.events.len() implies RuntimeView::<A>::is_tick_event(
                    #[trigger] self@.events[k].spec_kind(),
                ) by {
                    if k < before.events.len() {
                        assert(self@.events[k] == start.events[k]);
                        assert(RuntimeView::<A>::is_tick_event(start.events[k].spec_kind()));
                    } else if k < recorded.events.len() {
                        assert(self@.events[k] == recorded.events[k]);
                        assert(k == mid.events.len());
                        assert(state.is_settled());
                        assert(RuntimeView::<A>::is_tick_event(recorded.events[k].spec_kind()));
                    } else {
                        assert(drop && settled);
                        assert(self@ == recorded.drop_slot(id, RemovalReason::Settled));
                    }
                }
                assert forall|i: int| 0 <= i < old(self)@.slots.len() implies {
                    &&& (#[trigger] self@.slots[i]).generation == old(self)@.slots[i].generation
                    &&& self@.slots[i].playback_revision == old(self)@.slots[i].playback_revision
                    &&& self@.slots[i].animation is Some ==> old(self)@.slots[i].animation is Some
                    &&& !old(self)@.slots[i].active ==> self@.slots[i].animation == old(self)@.slots[i].animation
                        && !self@.slots[i].active
                } by {
                    assert(before.slots[i].generation == old(self)@.slots[i].generation);
                }
            }
            proof {
                assert(!self@.slots[s as int].active);
                assert forall|j: int| 0 <= j < self@.slots.len() && j != s implies #[trigger] self@.slots[j]
                    == start.slots[j] by {
                    assert(before.slots[j] == start.slots[j]);
                    assert(recorded.slots[j] == before.slots[j]);
                }
                assert(!self@.slots[s as int].queued);
                assert(self.next_active@ == start_next);
                o.lemma_tick_schedule_step(index as int, start, start_next, self@, self.next_active@, s as int, false);
                if RuntimeView::<A>::scheduled_once(o.queue, o.id_at(s as int)) {
                    assert(taken == o.slots[s as int].animation->Some_0);
                    assert(o.slots[s as int].animation->Some_0.spec_advanced(delta, advanced));
                    assert(recorded.slots[s as int].terminal_emitted == (o.slots[s as int].terminal_emitted
                        || state.is_settled()));
                    assert(RuntimeView::<A>::ticked_slot(o.slots[s as int], delta, self@.slots[s as int]));
                }
                o.lemma_tick_progress_step(index as int, delta, start, self@, s as int);
                start.lemma_consistent_slot_update(s as int, self@);
                let si = s as int;
                assert(id == o.id_at(si));
                assert(start.slots[si].active);
                assert(mid.slots[si].playback_revision == o.slots[si].playback_revision);
                assert(recorded.slots[si].playback_revision == o.slots[si].playback_revision);
                assert(!start.slots[si].terminal_emitted ==> !mid.slots[si].terminal_emitted);
                assert(recorded == mid.record_terminal(id, state));
                o.lemma_tick_events_stop(start, mid, recorded, self@, id, si, state, drop && settled);
                assert forall|k: int| 0 <= k < index implies {
                    let idk = #[trigger] q[k];
                    idk.spec_slot() < self@.slots.len() && self@.slots[idk.spec_slot() as int].generation
                        == idk.spec_generation() && self@.slots[idk.spec_slot() as int].active
                        ==> self.next_active@.contains(idk)
                } by {
                    let idk = q[k];
                    if idk.spec_slot() < self@.slots.len() && self@.slots[idk.spec_slot() as int].generation
                        == idk.spec_generation() && self@.slots[idk.spec_slot() as int].active {
                        lemma_count_positive(self@.slots, idk.spec_slot() as int, slot_active());
                        assert(idk.spec_slot() != s);
                        assert(self@.slots[idk.spec_slot() as int] == start.slots[idk.spec_slot() as int]);
                        assert(self.next_active@ == next_before);
                    }
                }
            }
        }
        let ghost exit_next = self.next_active@;
        let ghost exit_view = self@;
        let ghost exit_index = index;
        proof {
            assert(index >= exit_view.queue.len());
            o.lemma_tick_finish(index as int, delta, exit_view);
        }
        std::mem::swap(&mut self.active, &mut self.next_active);
        if self.active_count == 0 {
            self.active.clear();
            self.next_active.clear();
            self.last_tick = None;
        }
        let slot_count = self.slots.len();
        proof {
            assert(exit_index == q.len());
            o.lemma_tick_schedule_finish(exit_view, exit_next, self@);
        }
        proof {
            assert(self@.slots == exit_view.slots);
            assert forall|i: int| 0 <= i < self@.slots.len() implies #[trigger] self@.slot_consistent(i) by {
                assert(exit_view.slot_consistent(i));
            }
        }
        proof {
            assert forall|i: int|
                0 <= i < o.slots.len() && o.slots[i].active && o.queue.contains(o.id_at(i))
                    && #[trigger] self@.slots[i].active implies self@.queue.contains(self@.id_at(i)) by {
                let k = choose|k: int| 0 <= k < q.len() && q[k] == o.id_at(i);
                assert(exit_view.slots[i].active);
                lemma_count_positive(exit_view.slots, i, slot_active());
                assert(exit_view.queue == q);
                assert(i < slot_count);
                MotionId::lemma_eq(q[k], o.id_at(i));
                assert(k < index);
                assert(q[k].spec_slot() == i);
                assert(exit_view.slots[i].generation == o.slots[i].generation);
                assert(exit_view.slots[q[k].spec_slot() as int].generation == q[k].spec_generation());
                assert(exit_next.contains(q[k]));
                MotionId::lemma_eq(self@.id_at(i), o.id_at(i));
            }
            o.lemma_ticks_active(delta, self@);
        }
    }

    /// Advances active animations using elapsed wall-clock time.
    ///
    /// The first call after the runtime became idle establishes the clock origin and
    /// advances by zero.
    pub fn tick_at(&mut self, now: std::time::Instant)
        requires
            old(self).wf(),
        ensures
            final(self).wf(),
            old(self)@.tick_frame(final(self)@),
            final(self)@.active_count == 0 ==> final(self)@.queue.len() == 0 && !final(self)@.clock_set(),
            final(self)@.active_count > 0 ==> final(self)@.last_tick == Some(now),
            old(self)@.keeps_unscheduled(final(self)@),
            old(self)@.settles_stopped(final(self)@),
            old(self)@.reschedules_active(final(self)@),
            exists|delta: Duration|
                (old(self)@.last_tick is None ==> delta.spec_nanos() == 0) && (old(self)@.last_tick
                    matches Some(last) ==> delta.spec_nanos() == std_duration_secs(instant_gap(now, last))
                    * NANOS_PER_SEC + std_duration_subsec_nanos(instant_gap(now, last)))
                    && #[trigger] old(
                    self,
                )@.ticks_scheduled(delta, final(self)@) && old(self)@.ticks_active(delta, final(self)@),
            old(self)@.tick_events(final(self)@),
    {
        let delta = match self.last_tick {
            Some(last) => Duration::from_std(saturating_duration_since(now, last)),
            None => Duration::zero(),
        };
        self.last_tick = Some(now);
        let ghost clocked = self@;
        proof {
            assert(clocked.slots == old(self)@.slots && clocked.queue == old(self)@.queue);
            assert forall|i: int| 0 <= i < clocked.slots.len() implies #[trigger] clocked.slot_consistent(i) by {
                assert(old(self)@.slot_consistent(i));
            }
        }
        self.tick(delta);
        proof {
            assert(old(self)@.ticks_scheduled(delta, self@));
            assert(old(self)@.ticks_active(delta, self@));
            assert(old(self)@.tick_events(self@));
        }
    }

    /// Returns the allocated capacity of the runtime slot storage.
    pub fn slot_capacity(&self) -> (r: usize)
        ensures
            r >= self@.slots.len(),
    {
        vec_capacity(&self.slots)
    }

    /// Releases unused slot and queue capacity.
    ///
    /// Trailing slots without an animation are dropped, together with their
    /// entries in the free list. The last generation of each dropped slot is kept,
    /// so a motion later stored at the same index gets a new ID.
    pub fn shrink_to_fit(&mut self)
        requires
            old(self).wf(),
        ensures
            final(self).wf(),
            final(self)@.slots.len() <= old(self)@.slots.len(),
            final(self)@.slots == old(self)@.slots.subrange(0, final(self)@.slots.len() as int),
            final(self)@.slots.len() == 0 || final(self)@.slots.last().animation is Some,
            forall|i: int|
                final(self)@.slots.len() <= i < old(self)@.slots.len() ==> old(self)@.slots[i].animation is None,
            final(self)@.events == old(self)@.events,
            final(self)@.free == old(self)@.free.filter(index_below(final(self)@.slots.len())),
            final(self)@.queue == old(self)@.queue,
            final(self)@.active_count == old(self)@.active_count,
            final(self)@.motion_count == old(self)@.motion_count,
            final(self)@.retired.len() == old(self)@.retired.len(),
            forall|i: int|
                final(self)@.slots.len() <= i < old(self)@.slots.len() ==> final(self)@.retired[i]
                    == (#[trigger] old(self)@.slots[i]).generation,
            forall|i: int|
                0 <= i < old(self)@.retired.len() && !(final(self)@.slots.len() <= i < old(
                    self,
                )@.slots.len()) ==> final(self)@.retired[i] == #[trigger] old(self)@.retired[i],
    {
        while self.slots.len() > 0 && self.slots[self.slots.len() - 1].animation.is_none()
            invariant
                self@.active_count == count_slots(self@.slots, slot_active()),
                self@.motion_count == count_slots(self@.slots, slot_occupied()),
                forall|i: int|
                    0 <= i < self@.slots.len() && (#[trigger] self@.slots[i]).active
                        ==> self@.slots[i].animation is Some,
                forall|i: int|
                    0 <= i < self@.slots.len() && (#[trigger] self@.slots[i]).animation is None
                        ==> self@.free.contains(i as usize),
                forall|k: int|
                    0 <= k < self@.free.len() && (#[trigger] self@.free[k]) < self@.slots.len()
                        ==> self@.slots[self@.free[k] as int].animation is None,
                self@.free.no_duplicates(),
                self@.slots.len() <= old(self)@.slots.len(),
                self@.slots == old(self)@.slots.subrange(0, self@.slots.len() as int),
                forall|i: int|
                    self@.slots.len() <= i < old(self)@.slots.len() ==> old(self)@.slots[i].animation is None,
                self@.events == old(self)@.events,
                self@.queue == old(self)@.queue,
                self@.active_count == old(self)@.active_count,
                self@.motion_count == old(self)@.motion_count,
                self@.free == old(self)@.free,
                self@.retired.len() == old(self)@.retired.len(),
                self@.retired.len() >= self@.slots.len(),
                forall|i: int|
                    0 <= i < self@.retired.len() ==> #[trigger] self@.retired[i] == if self@.slots.len() <= i
                        < old(self)@.slots.len() {
                        old(self)@.slots[i].generation
                    } else {
                        old(self)@.retired[i]
                    },
            decreases self.slots.len(),
        {
            let ghost before = self@;
            let last = self.slots.len() - 1;
            let generation = self.slots[last].generation;
            self.retired.set(last, generation);
            let _ = self.slots.pop();
            proof {
                let n = before.slots.len() - 1;
                assert(self@.slots =~= before.slots.drop_last());
                assert(!before.slots[n].active);
                assert forall|j: int|
                    0 <= j < self@.slots.len() && (#[trigger] self@.slots[j]).animation is None
                        implies self@.free.contains(j as usize) by {
                    assert(before.slots[j].animation is None);
                }
                assert forall|j: int| 0 <= j < self@.slots.len() && (#[trigger] self@.slots[j]).active
                    implies self@.slots[j].animation is Some by {
                    assert(before.slots[j].active);
                }
                assert forall|k: int|
                    0 <= k < self@.free.len() && (#[trigger] self@.free[k]) < self@.slots.len()
                        implies self@.slots[self@.free[k] as int].animation is None by {
                    assert(before.slots[self@.free[k] as int].animation is None);
                }
                assert(self@.slots =~= old(self)@.slots.subrange(0, self@.slots.len() as int));
                assert forall|i: int| 0 <= i < self@.retired.len() implies #[trigger] self@.retired[i]
                    == if self@.slots.len() <= i < old(self)@.slots.len() {
                    old(self)@.slots[i].generation
                } else {
                    old(self)@.retired[i]
                } by {
                    if i == n {
                        assert(before.slots[n] == old(self)@.slots[n]);
                    }
                }
            }
        }
        let len = self.slots.len();
        let mut kept: Vec<usize> = Vec::new();
        let n = self.free.len();
        let ghost fv = self@.free;
        let mut k: usize = 0;
        proof {
            reveal(Seq::filter);
            assert(fv.subrange(0, 0) =~= Seq::<usize>::empty());
            assert(kept@ =~= fv.subrange(0, 0).filter(index_below(len as nat)));
        }
        while k < n
            invariant
                n == self.free.len(),
                self@.free == fv,
                kept@ == fv.subrange(0, k as int).filter(index_below(len as nat)),
                fv.no_duplicates(),
                k <= n,
                len == self.slots.len(),
                forall|a: int| 0 <= a < kept@.len() ==> (#[trigger] kept@[a]) < len,
                forall|a: int, b: int| 0 <= a < b < kept@.len() ==> kept@[a] != kept@[b],
                forall|j: int| 0 <= j < k && fv[j] < len ==> kept@.contains(#[trigger] fv[j]),
                forall|a: int| 0 <= a < kept@.len() ==> exists|j: int| 0 <= j < k && fv[j] == #[trigger] kept@[a],
            decreases n - k,
        {
            let slot = self.free[k];
            let ghost old_kept = kept@;
            proof {
                reveal(Seq::filter);
                assert(fv.subrange(0, k + 1).drop_last() =~= fv.subrange(0, k as int));
                assert(fv.subrange(0, k + 1).last() == slot);
            }
            if slot < len {
                proof {
                    assert forall|a: int| 0 <= a < kept@.len() implies kept@[a] != slot by {
                        let j = choose|j: int| 0 <= j < k && fv[j] == kept@[a];
                        assert(fv[j] != fv[k as int]);
                    }
                }
                kept.push(slot);
                proof {
                    assert forall|a: int| 0 <= a < kept@.len() implies exists|j: int| 0 <= j < k + 1 && fv[j] == #[trigger] kept@[a] by {
                        if a == kept@.len() - 1 {
                            assert(fv[k as int] == kept@[a]);
                        } else {
                            assert(kept@[a] == old_kept[a]);
                            let j = choose|j: int| 0 <= j < k && fv[j] == old_kept[a];
                        }
                    }
                    assert forall|j: int| 0 <= j < k + 1 && fv[j] < len implies kept@.contains(#[trigger] fv[j]) by {
                        if j == k {
                            assert(kept@[kept@.len() - 1] == slot);
                        } else {
                            assert(old_kept.contains(fv[j]));
                            let w = choose|w: int| 0 <= w < old_kept.len() && old_kept[w] == fv[j];
                            assert(kept@[w] == fv[j]);
                        }
                    }
                }
            } else {
                proof {
                    assert forall|a: int| 0 <= a < kept@.len() implies exists|j: int| 0 <= j < k + 1 && fv[j] == #[trigger] kept@[a] by {
                        let j = choose|j: int| 0 <= j < k && fv[j] == kept@[a];
                    }
                }
            }
            k = k + 1;
        }
        proof {
            assert(fv.subrange(0, n as int) =~= fv);
        }
        self.free = kept;
        proof {
            let v = self@;
            assert forall|a: int| 0 <= a < v.free.len() implies (#[trigger] v.free[a]) < v.slots.len()
                && v.slots[v.free[a] as int].animation is None by {
                let j = choose|j: int| 0 <= j < fv.len() && fv[j] == v.free[a];
            }
            assert forall|i: int| 0 <= i < v.slots.len() && (#[trigger] v.slots[i]).animation is None
                implies v.free.contains(i as usize) by {
                assert(fv.contains(i as usize));
                let j = choose|j: int| 0 <= j < fv.len() && fv[j] == i as usize;
            }
            assert(v.free.no_duplicates());
            assert(v.wf());
        }
        vec_shrink_to_fit(&mut self.slots);
        vec_shrink_to_fit(&mut self.free);
        vec_shrink_to_fit(&mut self.active);
        vec_shrink_to_fit(&mut self.next_active);
        vec_shrink_to_fit(&mut self.events);
        proof {
            assert forall|i: int| 0 <= i < self@.slots.len() implies #[trigger] self@.slot_consistent(i) by {
                assert(self@.slots[i] == old(self)@.slots[i]);
                assert(old(self)@.slot_consistent(i));
            }
        }
    }
}

} // verus!

verus! {

impl<A: TransitionSource> MotionRuntime<A> {
    /// Inserts an idle motion resting at `initial`, with the given transition timing.
    pub fn motion_with(&mut self, initial: A::Target, timing: Timing) -> (r: Motion<A::Target>)
        requires
            old(self).wf(),
            old(self)@.slots.len() < usize::MAX,
        ensures
            r.spec_id() == old(self)@.next_id(),
            final(self).wf(),
            old(self)@.events.is_prefix_of(final(self)@.events),
            old(self)@.idle_inserted(initial, timing, final(self)@),
    {
        let animation = A::idle(initial, timing);
        self.insert_with_policy(animation, timing, RetainPolicy::Keep)
    }

    /// Inserts an idle motion with the default transition timing of 200 ms.
    pub fn motion(&mut self, initial: A::Target) -> (r: Motion<A::Target>)
        requires
            old(self).wf(),
            old(self)@.slots.len() < usize::MAX,
        ensures
            r.spec_id() == old(self)@.next_id(),
            final(self).wf(),
            old(self)@.events.is_prefix_of(final(self)@.events),
            old(self)@.idle_inserted(
                initial,
                Timing::spec_linear(Duration::spec_from_nanos(200_000_000)),
                final(self)@,
            ),
    {
        let duration = Duration::from_millis_u64(200);
        proof {
            Duration::lemma_from_nanos(200_000_000);
            Duration::lemma_eq(duration, Duration::spec_from_nanos(200_000_000));
        }
        let timing = Timing::new(duration);
        self.motion_with(initial, timing)
    }

    /// Transitions `motion` toward `target` and returns its new playback ID.
    ///
    /// The stored animation is retargeted in place when it supports that;
    /// otherwise it is replaced by a transition from its current value using the
    /// slot's transition timing. Either way an unfinished previous playback
    /// reports that it was retargeted.
    pub fn transition_to_tracked<T>(&mut self, motion: Motion<T>, target: A::Target) -> (r: Result<
        PlaybackId,
        MotionError,
    >)
        requires
            old(self).wf(),
        ensures
            final(self).wf(),
            old(self)@.events.is_prefix_of(final(self)@.events),
            r is Ok <==> old(self)@.lookup(motion.spec_id()) is Ok,
            r is Err ==> final(self)@ == old(self)@ && r == Err::<PlaybackId, MotionError>(
                old(self)@.lookup(motion.spec_id())->Err_0,
            ),
            r matches Ok(p) ==> {
                &&& p == PlaybackId::spec_new(
                    motion.spec_id(),
                    RuntimeView::<A>::next_revision(
                        old(self)@.slot_of(motion.spec_id()).playback_revision,
                    ),
                )
                &&& old(self)@.transitioned_to(motion.spec_id(), target, final(self)@)
            },
    {
        let id = motion.motion_id();
        match self.lookup(id) {
            Ok(()) => {},
            Err(e) => return Err(e),
        }
        let i = id.slot();
        let mut animation = self.slots[i].animation.take().unwrap();
        let ghost prior = animation;
        let previous_state = animation.state();
        let ghost target_spec = target;
        let done = animation.retarget(&target);
        proof {
            assert(prior == old(self)@.animation_of(id));
        }
        if done {
            let ghost retargeted = animation;
            self.slots[i].animation = Some(animation);
            let ghost v0 = old(self)@.with_animation(id, prior);
            proof {
                assert(old(self)@.with_animation(id, prior).slots =~= old(self)@.slots);
                assert(v0 == old(self)@);
                v0.lemma_wf_same_shape(i as int, AnimationSlot { animation: Some(retargeted), ..v0.slot_of(id) });
                v0.lemma_sched_with_animation(id, retargeted);
                assert(self@.slots =~= v0.with_animation(id, retargeted).slots);
                v0.with_animation(id, retargeted).lemma_wf_record_interruption(
                    id,
                    previous_state,
                    InterruptionReason::Retargeted,
                );
            }
            self.record_interruption(id, previous_state, InterruptionReason::Retargeted);
            proof {
                self@.lemma_wf_start_playback(id);
            }
            let playback = self.start_playback(id);
            let ghost started = self@;
            self.sync_slot_after_change(id);
            proof {
                let base = v0.record_interruption(id, prior.spec_state(), InterruptionReason::Retargeted).start_playback(id);
                assert(base.with_animation(id, retargeted).slots =~= started.slots);
                assert(base.with_animation(id, retargeted) == started);
                assert(started.animation_of(id) == retargeted);
                let c = choose|c: A|
                    c.spec_state() == started.state_of(id) && c.spec_current_value() == started.animation_of(id).spec_current_value() && c.spec_active() == started.animation_of(id).spec_active() && self@ == started.settle(
                        id,
                        started.animation_of(id).spec_active(),
                        started.state_of(id),
                        c,
                    );
                assert(base.settled_with(id, retargeted, self@));
                old(self)@.lemma_consistent_except(id, base);
                v0.lemma_wf_record_interruption(id, prior.spec_state(), InterruptionReason::Retargeted);
                v0.record_interruption(id, prior.spec_state(), InterruptionReason::Retargeted).lemma_wf_start_playback(id);
                base.lemma_settled_with_consistent(id, retargeted, self@);
                assert(old(self)@.with_animation(id, prior).record_interruption(
                    id,
                    prior.spec_state(),
                    InterruptionReason::Retargeted,
                ).start_playback(id).settled_with(id, retargeted, self@));
                assert(old(self)@.transition_step(id, target_spec, retargeted, true, retargeted, self@));
                lemma_events_are_appended(v0, id, prior.spec_state(), InterruptionReason::Retargeted, retargeted, self@);
            }
            return Ok(playback);
        }
        let transition = self.slots[i].transition;
        let next = animation.transition(target, transition);
        let ghost superseded = animation;
        self.slots[i].animation = Some(animation);
        proof {
            old(self)@.lemma_wf_same_shape(i as int, AnimationSlot { animation: Some(superseded), ..old(self)@.slot_of(id) });
            old(self)@.lemma_sched_with_animation(id, superseded);
            assert(self@.slots =~= old(self)@.with_animation(id, superseded).slots);
            old(self)@.lemma_consistent_except(id, self@);
        }
        let ghost mid = self@;
        let r = self.replace(id, next, InterruptionReason::Retargeted);
        proof {
            assert(mid == old(self)@.with_animation(id, superseded));
            assert(mid.state_of(id) == superseded.spec_state());
            if r is Ok {
                assert(old(self)@.transition_step(id, target_spec, superseded, false, next, self@));
            }
        }
        r
    }

    /// Transitions `motion` toward `target`.
    pub fn transition_to<T>(&mut self, motion: Motion<T>, target: A::Target) -> (r: Result<(), MotionError>)
        requires
            old(self).wf(),
        ensures
            final(self).wf(),
            old(self)@.events.is_prefix_of(final(self)@.events),
            r == old(self)@.lookup(motion.spec_id()),
            r is Err ==> final(self)@ == old(self)@,
            r is Ok ==> old(self)@.transitioned_to(motion.spec_id(), target, final(self)@),
    {
        match self.transition_to_tracked(motion, target) {
            Ok(_) => Ok(()),
            Err(e) => Err(e),
        }
    }
}

impl<T, W> RuntimeView<TypedAnimation<T, W>> {
    /// What reading the value of `id` gives: the value of its animation, or the lookup error.
    pub open spec fn value_result(self, id: MotionId) -> Result<T, MotionError> {
        match self.lookup(id) {
            Ok(()) => Ok(self.animation_of(id).spec_value()),
            Err(e) => Err(e),
        }
    }

    /// A tick by `delta` moves every active motion forward by `delta`: a motion
    /// that was active, and still is after the tick, is now `delta` further into
    /// its playback, as long as that position stays in range.
    pub proof fn lemma_tick_moves_active_motions(self, delta: Duration, after: Self, i: int)
        requires
            self.wf(),
            self.activity_consistent(),
            0 <= i < self.slots.len(),
            self.slots[i].active,
            self.ticks_active(delta, after),
        ensures
            after.slots[i].active ==> ({
                let before_position = self.slots[i].animation->Some_0.spec_position()->Some_0;
                let after_position = after.slots[i].animation->Some_0.spec_position()->Some_0;
                &&& after.slots[i].animation is Some
                &&& before_position <= after_position <= before_position + delta.spec_nanos()
                &&& before_position + delta.spec_nanos() <= crate::timing::duration::MAX_NANOS
                    ==> after_position == before_position + delta.spec_nanos()
            }),
    {
        assert(self.slot_consistent(i));
        assert(Self::ticked_slot(self.slots[i], delta, after.slots[i]));
        let advanced = choose|advanced: TypedAnimation<T, W>|
            #[trigger] self.slots[i].animation->Some_0.spec_advanced(delta, advanced) && if advanced.spec_active() {
                after.slots[i] == AnimationSlot { animation: Some(advanced), queued: true, ..self.slots[i] }
            } else {
                let settled = advanced.spec_state().is_settled();
                &&& !after.slots[i].active
                &&& !after.slots[i].queued
                &&& after.slots[i].generation == self.slots[i].generation
                &&& after.slots[i].playback_revision == self.slots[i].playback_revision
                &&& after.slots[i].transition == self.slots[i].transition
                &&& after.slots[i].retain_policy == self.slots[i].retain_policy
                &&& after.slots[i].terminal_emitted == (self.slots[i].terminal_emitted || settled)
                &&& if settled && self.slots[i].retain_policy == RetainPolicy::DropWhenSettled {
                    after.slots[i].animation is None
                } else {
                    &&& after.slots[i].animation is Some
                    &&& after.slots[i].animation->Some_0.spec_state() == advanced.spec_state()
                    &&& after.slots[i].animation->Some_0.spec_current_value() == advanced.spec_current_value()
                }
            };
    }
}

impl<T: Clone, W> MotionRuntime<TypedAnimation<T, W>> {
    /// Plays the animation that `source` builds from a clone of the motion's
    /// current value, and returns the new playback ID.
    ///
    /// The unfinished previous playback reports that it was replaced.
    pub fn play_source<Source: MotionSource<T>>(&mut self, motion: Motion<T>, source: Source) -> (r:
        Result<PlaybackId, MotionError>)
        requires
            old(self).wf(),
        ensures
            final(self).wf(),
            old(self)@.events.is_prefix_of(final(self)@.events),
            r is Ok <==> old(self)@.lookup(motion.spec_id()) is Ok,
            r is Err ==> final(self)@ == old(self)@ && r == Err::<PlaybackId, MotionError>(
                old(self)@.lookup(motion.spec_id())->Err_0,
            ),
            r matches Ok(p) ==> {
                &&& p == PlaybackId::spec_new(
                    motion.spec_id(),
                    RuntimeView::<TypedAnimation<T, W>>::next_revision(
                        old(self)@.slot_of(motion.spec_id()).playback_revision,
                    ),
                )
                &&& exists|current: T, played: TypedAnimation<T, W>|
                    cloned(old(self)@.value_result(motion.spec_id())->Ok_0, current)
                        && played.spec_storage() == AnimationStorage::Running(
                        #[trigger] source.spec_into_animation(current),
                    ) && #[trigger] old(self)@.record_interruption(
                        motion.spec_id(),
                        old(self)@.state_of(motion.spec_id()),
                        InterruptionReason::Replaced,
                    ).start_playback(motion.spec_id()).settled_with(
                        motion.spec_id(),
                        played,
                        final(self)@,
                    )
            },
    {
        let current = match self.value(motion) {
            Ok(value) => value.clone(),
            Err(e) => return Err(e),
        };
        let built = source.into_animation(current);
        let ghost built_spec = built;
        let played = TypedAnimation::from_box(built);
        let ghost played_spec = played;
        let r = self.play_tracked(motion, played);
        proof {
            assert(played_spec.spec_storage() == AnimationStorage::Running(built_spec));
        }
        r
    }
}

impl<T, W> MotionRuntime<TypedAnimation<T, W>> {
    /// Returns the current value of `motion`.
    pub fn value(&self, motion: Motion<T>) -> (r: Result<&T, MotionError>)
        ensures
            r is Ok <==> self@.lookup(motion.spec_id()) is Ok,
            r matches Err(e) ==> self@.value_result(motion.spec_id()) == Err::<T, MotionError>(e),
            r matches Ok(v) ==> self@.value_result(motion.spec_id()) == Ok::<T, MotionError>(*v),
    {
        match self.animation(motion) {
            Ok(animation) => Ok(animation.value()),
            Err(e) => Err(e),
        }
    }
}

} // verus!
