use aura_anim_core::timing::{Duration, Timing};
use aura_anim_core::{
    Animation, AnimationState, BoxAnimation, MotionRuntime, Presence, Tweener, TypedAnimation,
};

fn ms(value: u64) -> Duration {
    Duration::from_millis_u64(value)
}

/// A linear integer ramp.
struct Ramp {
    from: i64,
    to: i64,
    current: i64,
    elapsed: u128,
    length: u128,
    state: AnimationState,
}

impl Ramp {
    fn new(from: i64, to: i64, length: Duration) -> Self {
        let mut ramp = Ramp { from, to, current: from, elapsed: 0, length: length.as_nanos(), state: AnimationState::Running };
        ramp.sample();
        ramp
    }

    fn idle(value: i64) -> Self {
        Ramp { from: value, to: value, current: value, elapsed: 0, length: 0, state: AnimationState::Idle }
    }

    fn sample(&mut self) {
        if self.elapsed >= self.length {
            self.elapsed = self.length;
            self.current = self.to;
            self.state = AnimationState::Completed;
        } else {
            let span = (self.to - self.from) as i128;
            self.current = self.from + (span * self.elapsed as i128 / self.length as i128) as i64;
        }
    }
}

impl Animation<i64> for Ramp {
    fn spec_state(&self) -> AnimationState {
        self.state
    }

    fn spec_value(&self) -> i64 {
        self.current
    }

    fn spec_duration(&self) -> Option<Duration> {
        self.duration()
    }

    fn spec_position(&self) -> Duration {
        Duration::from_nanos(self.elapsed as u64)
    }

    fn value(&self) -> &i64 {
        &self.current
    }

    fn state(&self) -> AnimationState {
        self.state
    }

    fn duration(&self) -> Option<Duration> {
        Some(Duration::from_nanos(self.length as u64))
    }

    fn is_active(&self) -> bool {
        self.state == AnimationState::Running
    }

    fn tick(&mut self, delta: Duration) {
        if self.state == AnimationState::Running {
            self.elapsed += delta.as_nanos();
            self.sample();
        }
    }

    fn advance(&mut self, delta: Duration) -> Duration {
        if self.state != AnimationState::Running {
            return delta;
        }
        let remaining = Duration::from_nanos((self.length - self.elapsed) as u64);
        let consumed = delta.min(remaining);
        self.tick(consumed);
        delta.saturating_sub(consumed)
    }

    fn pause(&mut self) {
        if self.state == AnimationState::Running {
            self.state = AnimationState::Paused;
        }
    }

    fn resume(&mut self) {
        if self.state == AnimationState::Paused {
            self.state = AnimationState::Running;
        }
    }

    fn cancel(&mut self) {
        if matches!(self.state, AnimationState::Running | AnimationState::Paused) {
            self.state = AnimationState::Canceled;
        }
    }

    fn seek_to(&mut self, elapsed: Duration) {
        self.state = AnimationState::Running;
        self.elapsed = elapsed.as_nanos().min(self.length);
        self.sample();
    }

    fn finish(&mut self) {
        self.elapsed = self.length;
        self.current = self.to;
        self.state = AnimationState::Completed;
    }

    fn retarget(&mut self, _target: &i64) -> bool {
        false
    }

    fn into_value(self: Box<Self>) -> i64 {
        self.current
    }
}

struct Ramps;

impl Tweener<i64> for Ramps {
    fn spec_between(from: i64, to: i64, timing: Timing) -> BoxAnimation<i64> {
        Self::between(from, to, timing)
    }

    fn idle(value: i64, _timing: Timing) -> BoxAnimation<i64> {
        BoxAnimation(Box::new(Ramp::idle(value)))
    }

    fn between(from: i64, to: i64, timing: Timing) -> BoxAnimation<i64> {
        BoxAnimation(Box::new(Ramp::new(from, to, timing.duration())))
    }
}

type Runtime = MotionRuntime<TypedAnimation<i64, Ramps>>;

fn ramp(from: i64, to: i64, length: u64) -> TypedAnimation<i64, Ramps> {
    TypedAnimation::new(Box::new(Ramp::new(from, to, ms(length))))
}

#[test]
fn presence_mounts_until_exit_animation_settles() {
    let mut runtime = Runtime::new();
    let mut presence = Presence::new(&mut runtime, 0, 100, Timing::new(ms(100)));

    assert!(!presence.is_mounted());
    presence.show(&mut runtime).unwrap();
    assert!(presence.is_mounted());
    assert!(presence.is_visible());

    runtime.tick(ms(100));
    assert_eq!(*presence.value(&runtime).unwrap(), 100);

    presence.hide_content(&mut runtime).unwrap();
    assert!(presence.is_mounted());
    assert!(!presence.is_visible());

    runtime.tick(ms(100));
    presence.sync(&runtime).unwrap();
    assert!(!presence.is_mounted());
    assert_eq!(*presence.value(&runtime).unwrap(), 0);
}

#[test]
fn sync_keeps_content_mounted_while_the_exit_runs() {
    let mut runtime = Runtime::new();
    let mut presence = Presence::new(&mut runtime, 0, 100, Timing::new(ms(100)));

    presence.show(&mut runtime).unwrap();
    runtime.tick(ms(100));
    presence.hide_content(&mut runtime).unwrap();
    runtime.tick(ms(50));
    presence.sync(&runtime).unwrap();

    assert!(presence.is_mounted());
    assert_eq!(*presence.value(&runtime).unwrap(), 50);
}

#[test]
fn presence_accepts_custom_enter_and_exit_animations() {
    let mut runtime = Runtime::new();
    let mut presence = Presence::new(&mut runtime, 0, 100, Timing::new(ms(100)));

    presence.show_with(ramp(0, 200, 50), &mut runtime).unwrap();
    runtime.tick(ms(50));
    assert_eq!(*presence.value(&runtime).unwrap(), 200);

    presence.hide_with(ramp(200, -100, 50), &mut runtime).unwrap();
    runtime.tick(ms(50));
    presence.sync(&runtime).unwrap();

    assert!(!presence.is_mounted());
    assert_eq!(*presence.value(&runtime).unwrap(), -100);
}

#[test]
fn presence_only_unmounts_for_the_current_exit_playback() {
    let mut runtime = Runtime::new();
    let mut presence = Presence::new(&mut runtime, 0, 100, Timing::new(ms(100)));

    presence.show(&mut runtime).unwrap();
    runtime.tick(ms(100));
    runtime.clear_events();

    presence.hide_content(&mut runtime).unwrap();
    runtime.tick(ms(100));
    let old_exit_events = runtime.take_events();

    presence.show(&mut runtime).unwrap();
    assert!(presence.is_mounted());
    assert!(old_exit_events.iter().all(|event| !presence.handle_event(event)));
    assert!(presence.is_mounted());

    runtime.tick(ms(100));
    runtime.clear_events();
    presence.hide_content(&mut runtime).unwrap();
    runtime.tick(ms(100));

    let changed = runtime.take_events().iter().any(|event| presence.handle_event(event));
    assert!(changed);
    assert!(!presence.is_mounted());
}

#[test]
fn presence_event_reports_only_actual_mount_changes() {
    let mut runtime = Runtime::new();
    let mut presence = Presence::new(&mut runtime, 0, 100, Timing::new(ms(100)));

    presence.hide_content(&mut runtime).unwrap();
    runtime.tick(ms(100));

    let changed = runtime.take_events().iter().any(|event| presence.handle_event(event));
    assert!(!changed);
    assert!(!presence.is_mounted());
}

#[test]
fn set_visible_and_toggle_report_whether_anything_started() {
    let mut runtime = Runtime::new();
    let mut presence = Presence::new(&mut runtime, 0, 100, Timing::new(ms(100)));
    let motion = presence.motion();
    let before = motion.playback(&runtime).unwrap();

    assert_eq!(presence.set_visible(false, &mut runtime), Ok(false));
    assert_eq!(motion.playback(&runtime), Ok(before));
    assert_eq!(presence.set_visible(true, &mut runtime), Ok(true));
    assert!(presence.is_visible());
    assert_eq!(presence.toggle(&mut runtime), Ok(true));
    assert!(!presence.is_visible());
    assert!(presence.is_mounted());
}

#[test]
fn presence_reports_runtime_errors_without_changing() {
    let mut runtime = Runtime::new();
    let mut presence = Presence::new(&mut runtime, 0, 100, Timing::new(ms(100)));
    presence.motion().remove(&mut runtime).unwrap();

    assert_eq!(
        presence.show(&mut runtime),
        Err(aura_anim_core::MotionError::Removed { slot: 0 })
    );
    assert!(!presence.is_mounted());
    assert!(!presence.is_visible());
    assert_eq!(
        presence.sync(&runtime),
        Err(aura_anim_core::MotionError::Removed { slot: 0 })
    );
}
