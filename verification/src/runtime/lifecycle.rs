//! Guarantees that hold across runtime operations: handle generations, playback
//! identity, and the once-per-playback reporting of how a playback ended.

use vstd::prelude::*;

use crate::runtime::{AnimationSlot, RetainPolicy, RuntimeView};
use crate::runtime::anim_dyn::AnimationDyn;
use crate::runtime::error::MotionError;
use crate::runtime::event::{
    InterruptionReason, MotionEvent, MotionEventKind, MotionEventTarget, MotionId, RemovalReason,
};
use crate::timing::{Duration, Timing};
use crate::traits::AnimationState;

verus! {

broadcast use {MotionId::lemma_new, crate::runtime::event::PlaybackId::lemma_new};

/// Whether `after` has the slots of `before` with the same generations and revisions.
pub open spec fn same_identities<A>(before: RuntimeView<A>, after: RuntimeView<A>) -> bool {
    &&& after.slots.len() == before.slots.len()
    &&& forall|i: int|
        0 <= i < before.slots.len() ==> {
            &&& (#[trigger] after.slots[i]).generation == before.slots[i].generation
            &&& after.slots[i].playback_revision == before.slots[i].playback_revision
        }
}

/// Settling an animation keeps every slot's generation and playback revision.
pub proof fn lemma_settle_keeps_identities<A: AnimationDyn>(
    v: RuntimeView<A>,
    id: MotionId,
    active: bool,
    state: AnimationState,
    compacted: A,
)
    requires
        v.lookup(id) is Ok,
    ensures
        same_identities(v, v.settle(id, active, state, compacted)),
{
    let i = id.spec_slot() as int;
    if active {
        let w = v.activate(id);
        assert(same_identities(v, w));
    } else {
        let d = v.deactivate(id);
        assert(same_identities(v, d)) by {
            if v.slots[i].active {
                let slots = v.slots.update(i, AnimationSlot { active: false, ..v.slots[i] });
                assert forall|j: int| 0 <= j < v.slots.len() implies {
                    &&& (#[trigger] d.slots[j]).generation == v.slots[j].generation
                    &&& d.slots[j].playback_revision == v.slots[j].playback_revision
                } by {
                    assert(slots[j].generation == v.slots[j].generation);
                }
            }
        }
        let t = d.record_terminal(id, state);
        assert(same_identities(d, t));
        if t.slot_of(id).retain_policy == RetainPolicy::DropWhenSettled && state.is_settled() {
            let r = t.remove_slot(id, RemovalReason::Settled);
            assert(same_identities(t, r));
        } else {
            let r = t.with_slot(i, AnimationSlot { animation: Some(compacted), ..t.slot_of(id) });
            assert(same_identities(t, r));
        }
    }
}

/// Switching the animation of a stored motion and settling it keeps every
/// slot's generation and playback revision.
pub proof fn lemma_settled_with_keeps_identities<A: AnimationDyn>(
    v: RuntimeView<A>,
    id: MotionId,
    animation: A,
    after: RuntimeView<A>,
)
    requires
        v.lookup(id) is Ok,
        v.settled_with(id, animation, after),
    ensures
        same_identities(v, after),
{
    let c = choose|c: A|
        c.spec_state() == animation.spec_state() && c.spec_current_value() == animation.spec_current_value() && c.spec_active() == animation.spec_active() && after == v.with_animation(id, animation).settle(
            id,
            animation.spec_active(),
            animation.spec_state(),
            c,
        );
    let w = v.with_animation(id, animation);
    assert(same_identities(v, w));
    lemma_settle_keeps_identities(w, id, animation.spec_active(), animation.spec_state(), c);
}

/// Runtime operations only ever append events: switching the animation of a
/// stored motion, reporting how its playback ended or was interrupted, starting
/// a new playback and settling it keep every event already queued, in order.
pub proof fn lemma_events_are_appended<A: AnimationDyn>(
    v: RuntimeView<A>,
    id: MotionId,
    state: AnimationState,
    reason: InterruptionReason,
    animation: A,
    after: RuntimeView<A>,
)
    requires
        v.lookup(id) is Ok,
        v.record_interruption(id, state, reason).start_playback(id).settled_with(id, animation, after),
    ensures
        v.events.is_prefix_of(after.events),
{
    let w = v.record_interruption(id, state, reason).start_playback(id);
    assert(v.events.is_prefix_of(w.events));
    let c = choose|c: A|
        c.spec_state() == animation.spec_state() && c.spec_current_value() == animation.spec_current_value()
            && after == w.with_animation(id, animation).settle(
            id,
            animation.spec_active(),
            animation.spec_state(),
            c,
        );
    let x = w.with_animation(id, animation);
    let d = x.deactivate(id);
    let t = d.record_terminal(id, animation.spec_state());
    assert(x.events.is_prefix_of(t.events));
    if !animation.spec_active() && t.slot_of(id).retain_policy == RetainPolicy::DropWhenSettled
        && animation.spec_state().is_settled() {
        assert(t.events.is_prefix_of(t.remove_slot(id, RemovalReason::Settled).events));
    }
}

/// Switching the animation of a stored motion and settling it keeps every event
/// already queued, in order.
pub proof fn lemma_settled_with_appends<A: AnimationDyn>(
    v: RuntimeView<A>,
    id: MotionId,
    animation: A,
    after: RuntimeView<A>,
)
    requires
        v.settled_with(id, animation, after),
    ensures
        v.events.is_prefix_of(after.events),
{
    let c = choose|c: A|
        c.spec_state() == animation.spec_state() && c.spec_current_value() == animation.spec_current_value()
            && c.spec_active() == animation.spec_active() && after == v.with_animation(id, animation).settle(
            id,
            animation.spec_active(),
            animation.spec_state(),
            c,
        );
    let x = v.with_animation(id, animation);
    let d = x.deactivate(id);
    let t = d.record_terminal(id, animation.spec_state());
    assert(x.events.is_prefix_of(t.events));
    if !animation.spec_active() && t.slot_of(id).retain_policy == RetainPolicy::DropWhenSettled
        && animation.spec_state().is_settled() {
        assert(t.events.is_prefix_of(t.remove_slot(id, RemovalReason::Settled).events));
    }
}

/// Removing a motion keeps every event already queued, in order, and reports
/// the removal after them.
pub proof fn lemma_removal_appends<A>(v: RuntimeView<A>, id: MotionId, state: AnimationState)
    ensures
        v.events.is_prefix_of(
            v.record_interruption(id, state, InterruptionReason::Removed).remove_slot(id, RemovalReason::Explicit).events,
        ),
{
    let w = v.record_interruption(id, state, InterruptionReason::Removed);
    assert(v.events.is_prefix_of(w.events));
    assert(w.events.is_prefix_of(w.remove_slot(id, RemovalReason::Explicit).events));
}

/// Handles are checked by generation: once a motion is removed its handle reports
/// the removal, and once its slot is reused by the next insertion the old handle
/// is rejected as stale, the new motion gets a different ID, and no event of the
/// old motion matches the new one.
pub proof fn lemma_reused_slot_rejects_old_handle<A: AnimationDyn>(
    v: RuntimeView<A>,
    id: MotionId,
    state: AnimationState,
    stored: A,
    transition: Timing,
    retain_policy: RetainPolicy,
    after: RuntimeView<A>,
    event: MotionEvent,
)
    requires
        v.wf(),
        v.lookup(id) is Ok,
        ({
            let removed = v.record_interruption(id, state, InterruptionReason::Removed).remove_slot(
                id,
                RemovalReason::Explicit,
            );
            removed.insert_slot(stored, transition, retain_policy).settled_with(
                removed.next_id(),
                stored,
                after,
            )
        }),
    ensures
        ({
            let removed = v.record_interruption(id, state, InterruptionReason::Removed).remove_slot(
                id,
                RemovalReason::Explicit,
            );
            &&& removed.lookup(id) == Err::<(), MotionError>(
                MotionError::Removed { slot: id.spec_slot() },
            )
            &&& removed.next_id().spec_slot() == id.spec_slot()
            &&& removed.next_id() != id
            &&& after.lookup(id) matches Err(MotionError::StaleHandle { slot, .. }) && slot
                == id.spec_slot()
            &&& id.spec_matches(event) ==> !removed.next_id().spec_matches(event)
        }),
{
    let i = id.spec_slot() as int;
    let interrupted = v.record_interruption(id, state, InterruptionReason::Removed);
    let removed = interrupted.remove_slot(id, RemovalReason::Explicit);
    assert(removed.free.last() == id.spec_slot());
    let new_id = removed.next_id();
    assert(removed.slots[i].generation == id.spec_generation());
    assert(new_id.spec_generation() != id.spec_generation());
    let inserted = removed.insert_slot(stored, transition, retain_policy);
    assert(inserted.slots[i].generation == new_id.spec_generation());
    assert(inserted.lookup(new_id) is Ok);
    lemma_settled_with_keeps_identities(inserted, new_id, stored, after);
    assert(after.slots[i].generation == new_id.spec_generation());
}

/// Shrinking storage does not let an old handle reach a new motion: the handle of
/// a dropped slot is rejected, and when the next insertion stores a motion at that
/// index again, the new motion gets a different ID and no event of the old motion
/// matches it.
pub proof fn lemma_shrunk_slot_rejects_old_handle<A: AnimationDyn>(
    before: RuntimeView<A>,
    after: RuntimeView<A>,
    i: int,
    event: MotionEvent,
)
    requires
        before.wf(),
        after.wf(),
        before.slots.len() <= usize::MAX,
        after.slots.len() <= i < before.slots.len(),
        i < after.retired.len(),
        after.retired[i] == before.slots[i].generation,
    ensures
        after.lookup(before.id_at(i)) is Err,
        after.next_id().spec_slot() == i ==> {
            &&& after.next_id() != before.id_at(i)
            &&& before.id_at(i).spec_matches(event) ==> !after.next_id().spec_matches(event)
        },
{
    let id = before.id_at(i);
    if after.next_id().spec_slot() == i {
        if after.free.len() > 0 {
            assert(after.free[after.free.len() - 1] < after.slots.len());
        }
        assert(after.slots.len() < after.retired.len());
        assert(after.next_id().spec_generation() != id.spec_generation());
    }
}

/// Each playback reports how it ended at most once: after a completion,
/// cancelation or interruption is recorded, no further ending event is recorded
/// until a new playback starts.
pub proof fn lemma_one_ending_event_per_playback<A>(
    v: RuntimeView<A>,
    id: MotionId,
    first: AnimationState,
    second: AnimationState,
    reason: InterruptionReason,
    other: InterruptionReason,
)
    requires
        0 <= id.spec_slot() < v.slots.len(),
    ensures
        ({
            let ended = v.record_terminal(id, first);
            &&& ended != v ==> ended.slot_of(id).terminal_emitted && ended.events.len()
                == v.events.len() + 1
            &&& ended.slot_of(id).terminal_emitted ==> ended.record_terminal(id, second) == ended
                && ended.record_interruption(id, second, other) == ended
        }),
        ({
            let stopped = v.record_interruption(id, first, reason);
            &&& stopped != v ==> stopped.slot_of(id).terminal_emitted && stopped.events.len()
                == v.events.len() + 1
            &&& stopped.slot_of(id).terminal_emitted ==> stopped.record_terminal(id, second)
                == stopped && stopped.record_interruption(id, second, other) == stopped
        }),
{
}

/// A new playback gets an ID different from the previous one and may again
/// report how it ends.
pub proof fn lemma_new_playback_is_distinct<A>(v: RuntimeView<A>, id: MotionId)
    requires
        0 <= id.spec_slot() < v.slots.len(),
    ensures
        v.start_playback(id).current_playback(id) != v.current_playback(id),
        !v.start_playback(id).slot_of(id).terminal_emitted,
        v.start_playback(id).current_playback(id).spec_motion() == id,
{
}

/// A removal is always reported, as the newest event, for the current playback.
pub proof fn lemma_removal_is_reported<A>(v: RuntimeView<A>, id: MotionId, reason: RemovalReason)
    requires
        0 <= id.spec_slot() < v.slots.len(),
        v.slots[id.spec_slot() as int].generation == id.spec_generation(),
    ensures
        v.remove_slot(id, reason).events == v.events.push(
            MotionEvent::spec_new(v.current_playback(id), MotionEventKind::Removed(reason)),
        ),
        v.remove_slot(id, reason).lookup(id) == Err::<(), MotionError>(
            MotionError::Removed { slot: id.spec_slot() },
        ),
{
}

/// A tick leaves a motion that is not active as it was: it keeps its animation,
/// and with it its state and value, it stays inactive under the same ID and
/// playback, and none of the events the tick reports belongs to that playback.
pub proof fn lemma_tick_leaves_inactive_motion<A: AnimationDyn>(
    before: RuntimeView<A>,
    after: RuntimeView<A>,
    i: int,
)
    requires
        before.wf(),
        0 <= i < before.slots.len(),
        !before.slots[i].active,
        before.tick_frame(after),
        before.tick_events(after),
    ensures
        after.slots[i].animation == before.slots[i].animation,
        !after.slots[i].active,
        after.id_at(i) == before.id_at(i),
        after.current_playback(after.id_at(i)) == before.current_playback(before.id_at(i)),
        forall|k: int|
            before.events.len() <= k < after.events.len() ==> (#[trigger] after.events[k]).spec_playback()
                != before.current_playback(before.id_at(i)),
{
    assert(after.slots[i].generation == before.slots[i].generation);
    assert forall|k: int| before.events.len() <= k < after.events.len() implies (#[trigger] after.events[k]).spec_playback()
        != before.current_playback(before.id_at(i)) by {
        assert(before.stopped_slot_event(after, after.events[k]));
        let j = choose|j: int|
            0 <= j < before.slots.len() && before.slots[j].active && !(#[trigger] after.slots[j]).active
                && after.events[k].spec_playback() == before.current_playback(before.id_at(j));
        assert(j != i);
        assert(before.id_at(j).spec_slot() != before.id_at(i).spec_slot());
    }
}

/// A tick by `delta` of a runtime whose schedule is well formed keeps every
/// motion stored under [`RetainPolicy::Keep`]: only motions stored to be dropped
/// once they settle can disappear.
pub proof fn lemma_tick_keeps_retained_motions<A: AnimationDyn>(
    before: RuntimeView<A>,
    delta: Duration,
    after: RuntimeView<A>,
    i: int,
)
    requires
        0 <= i < before.slots.len(),
        before.slots[i].animation is Some,
        before.slots[i].retain_policy == RetainPolicy::Keep,
        before.tick_frame(after),
        before.ticks_active(delta, after),
    ensures
        after.slots[i].animation is Some,
{
    if before.slots[i].active {
        assert(RuntimeView::<A>::ticked_slot(before.slots[i], delta, after.slots[i]));
    }
}

} // verus!
