use aura_anim_core::timing::{Duration, Timing};
use aura_anim_core::{
    Animation, AnimationCommand, AnimationDyn, AnimationState, BoxAnimation, Hold, InterruptionReason,
    MotionError, MotionEventKind, MotionRuntime, MotionSource, RemovalReason, RetainPolicy, Settled,
    Tweener, TypedAnimation,
};

fn ms(value: u64) -> Duration {
    Duration::from_millis_u64(value)
}

/// A linear integer ramp.
struct Ramp {
    from: i64,
    to: i64,
    current: i64,
    elapsed: u128,
    length: u128,
    state: AnimationState,
}

impl Ramp {
    fn new(from: i64, to: i64, length: Duration) -> Self {
        let mut ramp = Ramp { from, to, current: from, elapsed: 0, length: length.as_nanos(), state: AnimationState::Running };
        ramp.sample();
        ramp
    }

    fn idle(value: i64) -> Self {
        Ramp { from: value, to: value, current: value, elapsed: 0, length: 0, state: AnimationState::Idle }
    }

    fn sample(&mut self) {
        if self.elapsed >= self.length {
            self.elapsed = self.length;
            self.current = self.to;
            self.state = AnimationState::Completed;
        } else {
            let span = (self.to - self.from) as i128;
            self.current = self.from + (span * self.elapsed as i128 / self.length as i128) as i64;
        }
    }
}

impl Animation<i64> for Ramp {
    fn spec_state(&self) -> AnimationState {
        self.state
    }

    fn spec_value(&self) -> i64 {
        self.current
    }

    fn spec_duration(&self) -> Option<Duration> {
        self.duration()
    }

    fn spec_position(&self) -> Duration {
        Duration::from_nanos(self.elapsed as u64)
    }

    fn value(&self) -> &i64 {
        &self.current
    }

    fn state(&self) -> AnimationState {
        self.state
    }

    fn duration(&self) -> Option<Duration> {
        Some(Duration::from_nanos(self.length as u64))
    }

    fn is_active(&self) -> bool {
        self.state == AnimationState::Running
    }

    fn tick(&mut self, delta: Duration) {
        if self.state == AnimationState::Running {
            self.elapsed += delta.as_nanos();
            self.sample();
        }
    }

    fn advance(&mut self, delta: Duration) -> Duration {
        if self.state != AnimationState::Running {
            return delta;
        }
        let remaining = Duration::from_nanos((self.length - self.elapsed) as u64);
        let consumed = delta.min(remaining);
        self.tick(consumed);
        delta.saturating_sub(consumed)
    }

    fn pause(&mut self) {
        if self.state == AnimationState::Running {
            self.state = AnimationState::Paused;
        }
    }

    fn resume(&mut self) {
        if self.state == AnimationState::Paused {
            self.state = AnimationState::Running;
        }
    }

    fn cancel(&mut self) {
        if matches!(self.state, AnimationState::Running | AnimationState::Paused) {
            self.state = AnimationState::Canceled;
        }
    }

    fn seek_to(&mut self, elapsed: Duration) {
        self.state = AnimationState::Running;
        self.elapsed = elapsed.as_nanos().min(self.length);
        self.sample();
    }

    fn finish(&mut self) {
        self.elapsed = self.length;
        self.current = self.to;
        self.state = AnimationState::Completed;
    }

    fn retarget(&mut self, _target: &i64) -> bool {
        false
    }

    fn into_value(self: Box<Self>) -> i64 {
        self.current
    }
}

struct Ramps;

impl Tweener<i64> for Ramps {
    fn spec_between(from: i64, to: i64, timing: Timing) -> BoxAnimation<i64> {
        Self::between(from, to, timing)
    }

    fn idle(value: i64, _timing: Timing) -> BoxAnimation<i64> {
        BoxAnimation(Box::new(Ramp::idle(value)))
    }

    fn between(from: i64, to: i64, timing: Timing) -> BoxAnimation<i64> {
        BoxAnimation(Box::new(Ramp::new(from, to, timing.duration())))
    }
}

type Runtime = MotionRuntime<TypedAnimation<i64, Ramps>>;

fn ramp(from: i64, to: i64, length: u64) -> TypedAnimation<i64, Ramps> {
    TypedAnimation::new(Box::new(Ramp::new(from, to, ms(length))))
}

#[test]
fn runtime_manages_motion_lifecycle_and_retargeting() {
    let mut runtime = Runtime::new();
    let motion = runtime.motion_with(0, Timing::new(ms(100)));

    assert!(motion.transition_to(10, &mut runtime).is_ok());
    assert!(runtime.has_active());
    runtime.tick(ms(40));
    assert_eq!(motion.value(&runtime).unwrap(), 4);

    assert!(motion.transition_to(14, &mut runtime).is_ok());
    runtime.tick(ms(50));
    assert_eq!(motion.value(&runtime).unwrap(), 9);

    assert!(motion.pause(&mut runtime).is_ok());
    runtime.tick(ms(50));
    assert_eq!(motion.value(&runtime).unwrap(), 9);

    assert!(motion.resume(&mut runtime).is_ok());
    runtime.tick(ms(50));
    assert!(motion.is_completed(&runtime).unwrap());
    assert_eq!(motion.value(&runtime).unwrap(), 14);
    assert!(!runtime.has_active());
}

#[test]
fn motion_uses_the_default_transition_timing() {
    let mut runtime = Runtime::new();
    let motion = runtime.motion(0);

    assert_eq!(runtime.transition_timing(motion), Ok(Timing::new(ms(200))));
    motion.transition_to(100, &mut runtime).unwrap();
    runtime.tick(ms(100));
    assert_eq!(motion.value(&runtime).unwrap(), 50);
}

#[test]
fn play_once_drops_settled_animation() {
    let mut runtime = Runtime::new();
    let retained = runtime.motion_count();
    let transient = runtime.play_once(ramp(0, 1, 10));

    assert_eq!(runtime.motion_count(), retained + 1);
    runtime.tick(ms(10));

    assert_eq!(transient.value(&runtime), Err(MotionError::Removed { slot: 0 }));
    assert_eq!(runtime.motion_count(), retained);
    assert_eq!(runtime.active_count(), 0);
}

#[test]
fn runtime_supports_direct_insert_play_and_commands() {
    let mut runtime = Runtime::new();
    let motion = runtime.insert(ramp(0, 10, 100), Timing::new(ms(25)));

    assert_eq!(runtime.state(motion), Ok(AnimationState::Running));
    assert!(runtime.command(motion, AnimationCommand::Seek(ms(50))).is_ok());
    assert_eq!(*runtime.value(motion).unwrap(), 5);

    assert!(runtime.command(motion, AnimationCommand::Pause).is_ok());
    assert_eq!(runtime.state(motion), Ok(AnimationState::Paused));
    assert!(runtime.command(motion, AnimationCommand::Resume).is_ok());
    assert!(runtime.play(motion, ramp(5, 15, 50)).is_ok());
    runtime.tick(ms(50));
    assert_eq!(motion.value(&runtime).unwrap(), 15);
}

#[test]
fn runtime_finish_cancel_and_remove_commands_update_storage() {
    let mut runtime = Runtime::new();
    let finished = runtime.motion(0);
    let canceled = runtime.motion(0);

    assert!(finished.transition_to(1, &mut runtime).is_ok());
    assert!(canceled.transition_to(1, &mut runtime).is_ok());
    assert!(finished.finish(&mut runtime).is_ok());
    assert!(canceled.cancel(&mut runtime).is_ok());
    assert_eq!(finished.state(&runtime), Ok(AnimationState::Completed));
    assert_eq!(canceled.state(&runtime), Ok(AnimationState::Canceled));

    assert!(finished.remove(&mut runtime).is_ok());
    assert!(canceled.remove(&mut runtime).is_ok());
    assert_eq!(runtime.motion_count(), 0);
    assert!(!runtime.has_active());
}

#[test]
fn runtime_queues_completion_once_until_events_are_taken() {
    let mut runtime = Runtime::new();
    let motion = runtime.motion(0);
    let playback = motion.transition_to_tracked(10, &mut runtime).unwrap();

    runtime.tick(ms(200));
    runtime.tick(ms(200));

    assert_eq!(runtime.pending_event_count(), 1);
    let event = runtime.events()[0];
    assert_eq!(event.kind(), MotionEventKind::Completed);
    assert!(event.is_completed_for(motion));
    assert!(event.is_completed_for(playback));
    assert_eq!(event.motion(), motion.motion_id());
    assert_eq!(event.playback(), playback);

    assert_eq!(runtime.take_events(), vec![event]);
    assert!(runtime.events().is_empty());
}

#[test]
fn clearing_events_empties_the_queue() {
    let mut runtime = Runtime::new();
    let motion = runtime.motion(0);
    motion.remove(&mut runtime).unwrap();

    assert_eq!(runtime.pending_event_count(), 1);
    runtime.clear_events();
    assert_eq!(runtime.pending_event_count(), 0);
}

#[test]
fn tracked_playbacks_distinguish_replacement_and_retarget_events() {
    let mut runtime = Runtime::new();
    let motion = runtime.motion(0);
    let first = motion.play_tracked(ramp(0, 10, 100), &mut runtime).unwrap();
    let second = motion.play_tracked(ramp(0, 20, 100), &mut runtime).unwrap();
    let third = motion.transition_to_tracked(30, &mut runtime).unwrap();

    assert_ne!(first, second);
    assert_ne!(second, third);
    assert_eq!(third.revision(), 3);
    assert_eq!(motion.playback(&runtime), Ok(third));
    let events = runtime.take_events();
    assert_eq!(events.len(), 2);
    assert_eq!(events[0].playback(), first);
    assert_eq!(events[0].kind(), MotionEventKind::Interrupted(InterruptionReason::Replaced));
    assert_eq!(events[1].playback(), second);
    assert_eq!(events[1].kind(), MotionEventKind::Interrupted(InterruptionReason::Retargeted));
}

#[test]
fn finish_and_cancel_emit_one_terminal_event_per_playback() {
    let mut runtime = Runtime::new();
    let finished = runtime.motion(0);
    let canceled = runtime.motion(0);
    let finished_playback = finished.transition_to_tracked(1, &mut runtime).unwrap();
    let canceled_playback = canceled.transition_to_tracked(1, &mut runtime).unwrap();

    finished.finish(&mut runtime).unwrap();
    finished.finish(&mut runtime).unwrap();
    canceled.cancel(&mut runtime).unwrap();
    canceled.cancel(&mut runtime).unwrap();

    let events = runtime.take_events();
    assert_eq!(events.len(), 2);
    assert!(events[0].is_completed_for(finished_playback));
    assert!(events[1].is_canceled_for(canceled_playback));
}

#[test]
fn drop_when_settled_emits_terminal_then_removal_events() {
    let mut runtime = Runtime::new();
    let motion = runtime.play_once(ramp(0, 1, 10));
    let playback = motion.playback(&runtime).unwrap();

    runtime.tick(ms(10));

    let events = runtime.take_events();
    assert_eq!(events.len(), 2);
    assert_eq!(events[0].kind(), MotionEventKind::Completed);
    assert_eq!(events[1].kind(), MotionEventKind::Removed(RemovalReason::Settled));
    assert!(events.iter().all(|event| event.is_for(playback)));
    assert_eq!(motion.value(&runtime), Err(MotionError::Removed { slot: 0 }));
}

#[test]
fn removing_a_running_motion_emits_interruption_then_removal() {
    let mut runtime = Runtime::new();
    let motion = runtime.motion(0);
    let playback = motion.transition_to_tracked(1, &mut runtime).unwrap();

    motion.remove(&mut runtime).unwrap();

    let events = runtime.take_events();
    assert_eq!(events.len(), 2);
    assert_eq!(events[0].kind(), MotionEventKind::Interrupted(InterruptionReason::Removed));
    assert_eq!(events[1].kind(), MotionEventKind::Removed(RemovalReason::Explicit));
    assert!(events.iter().all(|event| event.is_for(playback)));
}

#[test]
fn completion_events_can_start_follow_up_playback_after_take() {
    let mut runtime = Runtime::new();
    let motion = runtime.motion(0);
    let exit = motion.play_tracked(ramp(0, -1, 100), &mut runtime).unwrap();
    runtime.tick(ms(100));

    let events = runtime.take_events();
    assert!(events.iter().any(|event| event.is_completed_for(exit)));
    let enter = motion.play_tracked(ramp(-1, 1, 100), &mut runtime).unwrap();

    runtime.tick(ms(100));
    assert!(runtime.take_events().iter().any(|event| event.is_completed_for(enter)));
}

#[test]
fn events_from_reused_slots_do_not_match_new_motions() {
    let mut runtime = Runtime::new();
    let old = runtime.motion(1);
    old.remove(&mut runtime).unwrap();
    let old_event = runtime.take_events()[0];

    let current = runtime.motion(2);

    assert_ne!(old.motion_id(), current.motion_id());
    assert_eq!(old.motion_id().slot(), current.motion_id().slot());
    assert!(old_event.is_for(old));
    assert!(!old_event.is_for(current));
}

#[test]
fn stale_motion_handles_fail_without_affecting_reused_slots() {
    let mut runtime = Runtime::new();
    let stale = runtime.motion(1);
    assert!(runtime.remove(stale).is_ok());
    assert_eq!(stale.value(&runtime), Err(MotionError::Removed { slot: 0 }));

    let current = runtime.motion(2);

    let expected_error = MotionError::StaleHandle {
        slot: 0,
        handle_generation: 0,
        actual_generation: 1,
    };
    assert_eq!(stale.value(&runtime), Err(expected_error.clone()));
    assert_eq!(stale.state(&runtime), Err(expected_error.clone()));
    assert_eq!(stale.transition_to(3, &mut runtime), Err(expected_error.clone()));
    assert_eq!(stale.pause(&mut runtime), Err(expected_error.clone()));
    assert_eq!(stale.remove(&mut runtime), Err(expected_error));
    assert_eq!(current.value(&runtime).unwrap(), 2);
}

#[test]
fn handles_from_another_runtime_are_out_of_bounds() {
    let mut source = Runtime::new();
    let motion = source.motion(1);
    let empty = Runtime::new();

    assert_eq!(motion.value(&empty), Err(MotionError::SlotOutOfBounds { slot: 0 }));
    assert_eq!(motion.is_active(&empty), Err(MotionError::SlotOutOfBounds { slot: 0 }));
}

#[test]
fn shrink_to_fit_releases_unused_slot_capacity() {
    let mut runtime = Runtime::new();
    let motions: Vec<_> = (0..16).map(|value| runtime.motion(value)).collect();
    let capacity_before = runtime.slot_capacity();

    for motion in motions {
        assert!(runtime.remove(motion).is_ok());
    }
    runtime.shrink_to_fit();

    assert_eq!(runtime.motion_count(), 0);
    assert!(runtime.slot_capacity() <= capacity_before);
}

#[test]
fn drop_when_settled_removes_precompleted_animation_immediately() {
    let mut animation = Ramp::new(0, 1, ms(10));
    animation.finish();
    let mut runtime = Runtime::new();

    let motion = runtime.insert_with_policy(
        TypedAnimation::new(Box::new(animation)),
        Timing::default(),
        RetainPolicy::DropWhenSettled,
    );

    assert_eq!(motion.value(&runtime), Err(MotionError::Removed { slot: 0 }));
    assert_eq!(runtime.motion_count(), 0);
    assert_eq!(
        runtime.take_events().iter().map(|event| event.kind()).collect::<Vec<_>>(),
        vec![MotionEventKind::Completed, MotionEventKind::Removed(RemovalReason::Settled)]
    );
}

#[test]
fn settled_animations_keep_their_value_after_compaction() {
    let mut runtime = Runtime::new();
    let motion = runtime.insert(
        TypedAnimation::settled(9, AnimationState::Completed),
        Timing::default(),
    );

    assert_eq!(motion.value(&runtime), Ok(9));
    assert_eq!(motion.state(&runtime), Ok(AnimationState::Completed));
    assert!(!runtime.has_active());
}

#[test]
fn hold_and_settled_sources_run_in_the_runtime() {
    let mut runtime = Runtime::new();
    let held = runtime.insert(TypedAnimation::new(Box::new(Hold::new(4, ms(30)))), Timing::default());
    let fixed = runtime.insert(
        TypedAnimation::new(Box::new(Settled::new(6, AnimationState::Canceled))),
        Timing::default(),
    );

    assert!(held.is_active(&runtime).unwrap());
    assert!(!fixed.is_active(&runtime).unwrap());
    runtime.tick(ms(30));
    assert!(held.is_completed(&runtime).unwrap());
    assert_eq!(held.value(&runtime), Ok(4));
    assert_eq!(fixed.value(&runtime), Ok(6));
}

#[test]
fn tick_at_uses_elapsed_instants() {
    let mut runtime = Runtime::new();
    let motion = runtime.motion_with(0, Timing::new(ms(100)));
    assert!(motion.transition_to(10, &mut runtime).is_ok());
    let start = std::time::Instant::now();

    runtime.tick_at(start);
    assert_eq!(motion.value(&runtime).unwrap(), 0);
    runtime.tick_at(start + std::time::Duration::from_millis(50));
    assert_eq!(motion.value(&runtime).unwrap(), 5);
}

#[test]
fn seek_command_moves_the_motion() {
    let mut runtime = Runtime::new();
    let motion = runtime.insert(ramp(0, 100, 100), Timing::default());

    motion.seek(ms(25), &mut runtime).unwrap();
    assert_eq!(motion.value(&runtime), Ok(25));
    assert_eq!(*motion.value_ref(&runtime).unwrap(), 25);
}

#[test]
fn shrinking_keeps_stale_handles_from_reaching_new_motions() {
    let mut runtime: Runtime = MotionRuntime::new();
    let stale = runtime.motion(1);
    runtime.remove(stale).unwrap();
    let events = runtime.take_events();
    runtime.shrink_to_fit();
    let fresh = runtime.motion(2);
    assert_eq!(fresh.motion_id().slot(), stale.motion_id().slot());
    assert_ne!(fresh.motion_id(), stale.motion_id());
    assert_eq!(
        stale.value(&runtime),
        Err(MotionError::StaleHandle { slot: 0, handle_generation: 0, actual_generation: 1 })
    );
    assert_eq!(fresh.value(&runtime), Ok(2));
    assert!(!events[0].is_for(fresh));
    assert!(events[0].is_for(stale));
}

#[test]
fn commands_reach_the_stored_animation() {
    let mut runtime: Runtime = MotionRuntime::new();
    let motion = runtime.insert(ramp(0, 100, 100), Timing::default());
    motion.pause(&mut runtime).unwrap();
    assert_eq!(motion.state(&runtime), Ok(AnimationState::Paused));
    motion.finish(&mut runtime).unwrap();
    assert_eq!(motion.state(&runtime), Ok(AnimationState::Completed));
    assert_eq!(motion.value(&runtime), Ok(100));
}


/// Ramps from the current value toward a target over a fixed length.
struct RampFrom {
    to: i64,
    length: u64,
}

impl MotionSource<i64> for RampFrom {
    fn spec_into_animation(self, current: i64) -> BoxAnimation<i64> {
        self.into_animation(current)
    }

    fn into_animation(self, current: i64) -> BoxAnimation<i64> {
        BoxAnimation(Box::new(Ramp::new(current, self.to, ms(self.length))))
    }
}

#[test]
fn play_source_starts_from_the_current_value() {
    let mut runtime: Runtime = MotionRuntime::new();
    let motion = runtime.motion(4);
    let first = runtime.playback(motion).unwrap();
    let playback = runtime.play_source(motion, RampFrom { to: 14, length: 100 }).unwrap();
    assert_ne!(playback, first);
    assert_eq!(motion.value(&runtime), Ok(4));
    runtime.tick(ms(50));
    assert_eq!(motion.value(&runtime), Ok(9));
    assert_eq!(motion.state(&runtime), Ok(AnimationState::Running));
}

#[test]
fn commands_follow_the_lifecycle() {
    let mut runtime: Runtime = MotionRuntime::new();
    let motion = runtime.insert(ramp(0, 10, 100), Timing::default());
    motion.resume(&mut runtime).unwrap();
    assert_eq!(motion.state(&runtime), Ok(AnimationState::Running));
    motion.pause(&mut runtime).unwrap();
    assert_eq!(motion.state(&runtime), Ok(AnimationState::Paused));
    assert_eq!(runtime.is_active(motion), Ok(false));
    motion.cancel(&mut runtime).unwrap();
    assert_eq!(motion.state(&runtime), Ok(AnimationState::Canceled));
    motion.cancel(&mut runtime).unwrap();
    let events = runtime.take_events();
    assert_eq!(events.len(), 1);
    assert_eq!(events[0].kind(), MotionEventKind::Canceled);
}

#[test]
fn finished_transient_animation_is_dropped_on_insertion() {
    let mut runtime: Runtime = MotionRuntime::new();
    let mut finished = ramp(0, 1, 10);
    finished.command(AnimationCommand::Finish);
    let motion = runtime.insert_with_policy(finished, Timing::default(), RetainPolicy::DropWhenSettled);
    assert_eq!(motion.value(&runtime), Err(MotionError::Removed { slot: 0 }));
    assert_eq!(runtime.motion_count(), 0);
    let kinds: Vec<MotionEventKind> = runtime.take_events().iter().map(|e| e.kind()).collect();
    assert_eq!(kinds, vec![MotionEventKind::Completed, MotionEventKind::Removed(RemovalReason::Settled)]);
}

#[test]
fn tick_at_measures_time_from_the_previous_call() {
    let mut runtime: Runtime = MotionRuntime::new();
    let motion = runtime.insert(ramp(0, 10, 100), Timing::default());
    let start = std::time::Instant::now();
    runtime.tick_at(start);
    assert_eq!(motion.value(&runtime), Ok(0));
    runtime.tick_at(start + std::time::Duration::from_millis(50));
    assert_eq!(motion.value(&runtime), Ok(5));
}

#[test]
fn resumed_motion_ticks_after_the_last_active_motion_is_removed() {
    let mut runtime = Runtime::new();
    let paused = runtime.insert(ramp(0, 10, 100), Timing::new(ms(100)));
    let other = runtime.insert(ramp(0, 10, 100), Timing::new(ms(100)));

    assert!(paused.pause(&mut runtime).is_ok());
    assert!(other.remove(&mut runtime).is_ok());
    assert_eq!(runtime.active_count(), 0);

    assert!(paused.resume(&mut runtime).is_ok());
    assert_eq!(runtime.active_count(), 1);
    runtime.tick(ms(50));
    assert_eq!(paused.value(&runtime).unwrap(), 5);
    runtime.tick(ms(50));
    assert!(paused.is_completed(&runtime).unwrap());
    assert!(!runtime.has_active());
}
