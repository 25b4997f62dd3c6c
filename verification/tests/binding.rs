use aura_anim_core::timing::{Duration, Timing};
use aura_anim_core::{
    Animation, AnimationState, BoxAnimation, Hold, InterruptionReason, MotionBinding,
    MotionBindingError, MotionBindingState, MotionError, MotionEventKind, MotionRuntime,
    TransitionContext, TransitionFactory, Tweener, TypedAnimation,
};

fn ms(value: u64) -> Duration {
    Duration::from_millis_u64(value)
}

/// A linear integer ramp.
struct Ramp {
    from: i64,
    to: i64,
    current: i64,
    elapsed: u128,
    length: u128,
    state: AnimationState,
}

impl Ramp {
    fn new(from: i64, to: i64, length: Duration) -> Self {
        let mut ramp = Ramp { from, to, current: from, elapsed: 0, length: length.as_nanos(), state: AnimationState::Running };
        ramp.sample();
        ramp
    }

    fn idle(value: i64) -> Self {
        Ramp { from: value, to: value, current: value, elapsed: 0, length: 0, state: AnimationState::Idle }
    }

    fn sample(&mut self) {
        if self.elapsed >= self.length {
            self.elapsed = self.length;
            self.current = self.to;
            self.state = AnimationState::Completed;
        } else {
            let span = (self.to - self.from) as i128;
            self.current = self.from + (span * self.elapsed as i128 / self.length as i128) as i64;
        }
    }
}

impl Animation<i64> for Ramp {
    fn spec_state(&self) -> AnimationState {
        self.state
    }

    fn spec_value(&self) -> i64 {
        self.current
    }

    fn spec_duration(&self) -> Option<Duration> {
        self.duration()
    }

    fn spec_position(&self) -> Duration {
        Duration::from_nanos(self.elapsed as u64)
    }

    fn value(&self) -> &i64 {
        &self.current
    }

    fn state(&self) -> AnimationState {
        self.state
    }

    fn duration(&self) -> Option<Duration> {
        Some(Duration::from_nanos(self.length as u64))
    }

    fn is_active(&self) -> bool {
        self.state == AnimationState::Running
    }

    fn tick(&mut self, delta: Duration) {
        if self.state == AnimationState::Running {
            self.elapsed += delta.as_nanos();
            self.sample();
        }
    }

    fn advance(&mut self, delta: Duration) -> Duration {
        if self.state != AnimationState::Running {
            return delta;
        }
        let remaining = Duration::from_nanos((self.length - self.elapsed) as u64);
        let consumed = delta.min(remaining);
        self.tick(consumed);
        delta.saturating_sub(consumed)
    }

    fn pause(&mut self) {
        if self.state == AnimationState::Running {
            self.state = AnimationState::Paused;
        }
    }

    fn resume(&mut self) {
        if self.state == AnimationState::Paused {
            self.state = AnimationState::Running;
        }
    }

    fn cancel(&mut self) {
        if matches!(self.state, AnimationState::Running | AnimationState::Paused) {
            self.state = AnimationState::Canceled;
        }
    }

    fn seek_to(&mut self, elapsed: Duration) {
        self.state = AnimationState::Running;
        self.elapsed = elapsed.as_nanos().min(self.length);
        self.sample();
    }

    fn finish(&mut self) {
        self.elapsed = self.length;
        self.current = self.to;
        self.state = AnimationState::Completed;
    }

    fn retarget(&mut self, _target: &i64) -> bool {
        false
    }

    fn into_value(self: Box<Self>) -> i64 {
        self.current
    }
}

struct Ramps;

impl Tweener<i64> for Ramps {
    fn spec_between(from: i64, to: i64, timing: Timing) -> BoxAnimation<i64> {
        Self::between(from, to, timing)
    }

    fn idle(value: i64, _timing: Timing) -> BoxAnimation<i64> {
        BoxAnimation(Box::new(Ramp::idle(value)))
    }

    fn between(from: i64, to: i64, timing: Timing) -> BoxAnimation<i64> {
        BoxAnimation(Box::new(Ramp::new(from, to, timing.duration())))
    }
}

type Runtime = MotionRuntime<TypedAnimation<i64, Ramps>>;

#[derive(Clone, Copy, Debug, PartialEq, Eq)]
enum State {
    Idle,
    Hovered,
    Pressed,
    Disabled,
}

/// Ramps from the current value to the target over a fixed length.
struct RampOver(u64);

impl TransitionFactory<State, i64> for RampOver {
    fn spec_build(&self, context: TransitionContext<State, i64>) -> BoxAnimation<i64> {
        self.build(context)
    }

    fn build(&self, context: TransitionContext<State, i64>) -> BoxAnimation<i64> {
        BoxAnimation(Box::new(Ramp::new(context.from, context.to, ms(self.0))))
    }
}

/// Jumps to the target and holds it.
struct HoldFor(u64);

impl TransitionFactory<State, i64> for HoldFor {
    fn spec_build(&self, context: TransitionContext<State, i64>) -> BoxAnimation<i64> {
        self.build(context)
    }

    fn build(&self, context: TransitionContext<State, i64>) -> BoxAnimation<i64> {
        BoxAnimation(Box::new(Hold::new(context.to, ms(self.0))))
    }
}

fn binding() -> MotionBinding<State, i64> {
    MotionBinding::new(State::Idle, 0)
        .when(State::Hovered, 100)
        .when(State::Pressed, 200)
        .transition(State::Idle, State::Hovered, Box::new(RampOver(100)))
        .transition(State::Hovered, State::Pressed, Box::new(HoldFor(10)))
        .fallback(Box::new(RampOver(50)))
}

#[test]
fn exact_transition_uses_current_sampled_value() {
    let binding = binding();
    let mut runtime = Runtime::new();
    let (motion, mut state) = binding.create_motion(&mut runtime);

    binding.set_state(&mut state, State::Hovered, motion, &mut runtime).unwrap();
    runtime.tick(ms(40));
    assert_eq!(motion.value(&runtime).unwrap(), 40);

    binding.set_state(&mut state, State::Pressed, motion, &mut runtime).unwrap();

    assert_eq!(motion.value(&runtime).unwrap(), 200);
    assert_eq!(state.current(), &State::Pressed);
}

#[test]
fn fallback_handles_unlisted_state_pair() {
    let binding = binding();
    let mut runtime = Runtime::new();
    let (motion, mut state) = binding.create_motion(&mut runtime);

    binding.set_state(&mut state, State::Pressed, motion, &mut runtime).unwrap();
    runtime.tick(ms(25));
    assert_eq!(motion.value(&runtime).unwrap(), 100);
    runtime.tick(ms(25));

    assert_eq!(motion.value(&runtime).unwrap(), 200);
}

#[test]
fn exact_transition_takes_precedence_over_fallback() {
    let binding = binding();
    let mut runtime = Runtime::new();
    let (motion, mut state) = binding.create_motion(&mut runtime);

    binding.set_state(&mut state, State::Hovered, motion, &mut runtime).unwrap();
    runtime.tick(ms(50));

    assert_eq!(motion.value(&runtime).unwrap(), 50);
}

#[test]
fn tracked_state_change_returns_playback_for_completion_event() {
    let binding = binding();
    let mut runtime = Runtime::new();
    let (motion, mut state) = binding.create_motion(&mut runtime);

    let playback = binding
        .set_state_tracked(&mut state, State::Hovered, motion, &mut runtime)
        .unwrap()
        .unwrap();

    assert_eq!(motion.playback(&runtime).unwrap(), playback);
    assert_eq!(
        binding.set_state_tracked(&mut state, State::Hovered, motion, &mut runtime).unwrap(),
        None
    );

    runtime.tick(ms(100));
    let events = runtime.take_events();
    assert_eq!(events.len(), 1);
    assert!(events[0].is_completed_for(playback));
}

#[test]
fn replacing_a_running_transition_reports_the_interruption() {
    let binding = binding();
    let mut runtime = Runtime::new();
    let (motion, mut state) = binding.create_motion(&mut runtime);

    let hovered = binding
        .set_state_tracked(&mut state, State::Hovered, motion, &mut runtime)
        .unwrap()
        .unwrap();
    let idle = binding
        .set_state_tracked(&mut state, State::Idle, motion, &mut runtime)
        .unwrap()
        .unwrap();
    let interrupted = runtime.take_events().pop().unwrap();

    assert!(interrupted.is_for(hovered));
    assert_eq!(interrupted.kind(), MotionEventKind::Interrupted(InterruptionReason::Replaced));

    runtime.tick(ms(50));
    let completed = runtime.take_events().pop().unwrap();
    assert!(completed.is_completed_for(idle));
    assert_eq!(state.current(), &State::Idle);
}

#[test]
fn failed_lookup_does_not_commit_state() {
    let binding = binding();
    let mut runtime = Runtime::new();
    let (motion, mut state) = binding.create_motion(&mut runtime);

    let error = binding.set_state(&mut state, State::Disabled, motion, &mut runtime).unwrap_err();

    assert_eq!(error, MotionBindingError::MissingTarget(State::Disabled));
    assert_eq!(state.current(), &State::Idle);
}

#[test]
fn shared_configuration_creates_independent_trackers() {
    let binding = binding();
    let mut runtime = Runtime::new();
    let (first, mut first_state) = binding.create_motion(&mut runtime);
    let (second, second_state) = binding.create_motion(&mut runtime);

    binding.set_state(&mut first_state, State::Hovered, first, &mut runtime).unwrap();

    assert_eq!(first_state.current(), &State::Hovered);
    assert_eq!(second_state.current(), &State::Idle);
    assert_eq!(second.value(&runtime).unwrap(), 0);
}

#[test]
fn missing_transition_is_reported_before_playback() {
    let binding = MotionBinding::new(State::Idle, 0).when(State::Hovered, 1);
    let mut runtime = Runtime::new();
    let (motion, mut state) = binding.create_motion(&mut runtime);

    let error = binding.set_state(&mut state, State::Hovered, motion, &mut runtime).unwrap_err();

    assert_eq!(
        error,
        MotionBindingError::MissingTransition { from: State::Idle, to: State::Hovered }
    );
    assert!(!motion.is_active(&runtime).unwrap());
    assert_eq!(state.current(), &State::Idle);
}

#[test]
fn runtime_errors_are_preserved_by_binding_errors() {
    let binding = binding();
    let mut runtime = Runtime::new();
    let (motion, mut state) = binding.create_motion(&mut runtime);
    motion.remove(&mut runtime).unwrap();

    let error = binding.set_state(&mut state, State::Hovered, motion, &mut runtime).unwrap_err();

    assert_eq!(error, MotionBindingError::Motion(MotionError::Removed { slot: 0 }));
    assert_eq!(state.current(), &State::Idle);
}

#[test]
fn unchanged_state_starts_nothing() {
    let binding = binding();
    let mut runtime = Runtime::new();
    let (motion, mut state) = binding.create_motion(&mut runtime);
    let before = motion.playback(&runtime).unwrap();

    assert_eq!(binding.set_state(&mut state, State::Idle, motion, &mut runtime), Ok(false));
    assert_eq!(motion.playback(&runtime), Ok(before));
}

#[test]
fn when_replaces_targets_and_the_initial_target() {
    let binding = MotionBinding::new(State::Idle, 0)
        .when(State::Hovered, 1)
        .when(State::Hovered, 2)
        .when(State::Idle, 5)
        .fallback(Box::new(HoldFor(10)));

    assert_eq!(binding.target(&State::Hovered), Ok(&2));
    assert_eq!(binding.target(&State::Idle), Ok(&5));
    assert_eq!(
        binding.target(&State::Pressed),
        Err(MotionBindingError::MissingTarget(State::Pressed))
    );
    assert_eq!(binding.initial_state(), &State::Idle);

    let mut runtime = Runtime::new();
    let (motion, state) = binding.create_motion(&mut runtime);
    assert_eq!(motion.value(&runtime), Ok(5));
    assert_eq!(state, MotionBindingState::new(State::Idle));
    assert_eq!(binding.state().current(), &State::Idle);
}

#[test]
fn motion_errors_convert_into_binding_errors() {
    let error: MotionBindingError<State> = MotionError::Removed { slot: 3 }.into();

    assert_eq!(error, MotionBindingError::Motion(MotionError::Removed { slot: 3 }));
}
