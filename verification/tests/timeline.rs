use aura_anim_core::timing::Duration;
use aura_anim_core::{Animation, AnimationState, BoxAnimation, Compose, Hold, Parallel, Sequence, Timeline};

fn ms(value: u64) -> Duration {
    Duration::from_millis_u64(value)
}

/// A linear integer ramp used to observe timeline composition.
struct Ramp {
    from: i64,
    to: i64,
    current: i64,
    elapsed: u128,
    length: u128,
    state: AnimationState,
}

impl Ramp {
    fn new(from: i64, to: i64, length: Duration) -> Self {
        Ramp { from, to, current: from, elapsed: 0, length: length.as_nanos(), state: AnimationState::Running }
    }

    fn sample(&mut self) {
        if self.elapsed >= self.length {
            self.elapsed = self.length;
            self.current = self.to;
            self.state = AnimationState::Completed;
        } else {
            let span = (self.to - self.from) as i128;
            self.current = self.from + (span * self.elapsed as i128 / self.length as i128) as i64;
        }
    }
}

impl Animation<i64> for Ramp {
    fn spec_state(&self) -> AnimationState {
        self.state
    }

    fn spec_value(&self) -> i64 {
        self.current
    }

    fn spec_duration(&self) -> Option<Duration> {
        self.duration()
    }

    fn spec_position(&self) -> Duration {
        Duration::from_nanos(self.elapsed as u64)
    }

    fn value(&self) -> &i64 {
        &self.current
    }

    fn state(&self) -> AnimationState {
        self.state
    }

    fn duration(&self) -> Option<Duration> {
        Some(Duration::from_nanos(self.length as u64))
    }

    fn is_active(&self) -> bool {
        self.state == AnimationState::Running
    }

    fn tick(&mut self, delta: Duration) {
        if self.state == AnimationState::Running {
            self.elapsed += delta.as_nanos();
            self.sample();
        }
    }

    fn advance(&mut self, delta: Duration) -> Duration {
        if self.state != AnimationState::Running {
            return delta;
        }
        let remaining = Duration::from_nanos((self.length - self.elapsed) as u64);
        let consumed = delta.min(remaining);
        self.tick(consumed);
        delta.saturating_sub(consumed)
    }

    fn pause(&mut self) {
        if self.state == AnimationState::Running {
            self.state = AnimationState::Paused;
        }
    }

    fn resume(&mut self) {
        if self.state == AnimationState::Paused {
            self.state = AnimationState::Running;
        }
    }

    fn cancel(&mut self) {
        if matches!(self.state, AnimationState::Running | AnimationState::Paused) {
            self.state = AnimationState::Canceled;
        }
    }

    fn seek_to(&mut self, elapsed: Duration) {
        self.state = AnimationState::Running;
        self.elapsed = elapsed.as_nanos().min(self.length);
        self.sample();
    }

    fn finish(&mut self) {
        self.elapsed = self.length;
        self.current = self.to;
        self.state = AnimationState::Completed;
    }

    fn retarget(&mut self, _target: &i64) -> bool {
        false
    }

    fn into_value(self: Box<Self>) -> i64 {
        self.current
    }
}

/// An animation that never ends and has no known duration.
struct Forever {
    value: i64,
    played: u128,
    state: AnimationState,
}

impl Animation<i64> for Forever {
    fn spec_state(&self) -> AnimationState {
        self.state
    }

    fn spec_value(&self) -> i64 {
        self.value
    }

    fn spec_position(&self) -> Duration {
        Duration::from_nanos(self.played as u64)
    }

    fn value(&self) -> &i64 {
        &self.value
    }

    fn state(&self) -> AnimationState {
        self.state
    }

    fn duration(&self) -> Option<Duration> {
        None
    }

    fn is_active(&self) -> bool {
        self.state == AnimationState::Running
    }

    fn tick(&mut self, delta: Duration) {
        if self.state == AnimationState::Running {
            self.played += delta.as_nanos();
        }
    }

    fn pause(&mut self) {}

    fn resume(&mut self) {}

    fn cancel(&mut self) {
        self.state = AnimationState::Canceled;
    }

    fn seek_to(&mut self, _elapsed: Duration) {}

    fn finish(&mut self) {
        self.state = AnimationState::Completed;
    }

    fn retarget(&mut self, _target: &i64) -> bool {
        false
    }

    fn into_value(self: Box<Self>) -> i64 {
        self.value
    }
}

struct Sum;

impl Compose<i64> for Sum {
    fn spec_compose(&self, outputs: &Vec<i64>) -> i64 {
        self.compose(outputs)
    }

    fn compose(&self, outputs: &Vec<i64>) -> i64 {
        outputs.iter().sum()
    }
}

struct FirstAndSecond;

impl Compose<i64> for FirstAndSecond {
    fn spec_compose(&self, outputs: &Vec<i64>) -> i64 {
        self.compose(outputs)
    }

    fn compose(&self, outputs: &Vec<i64>) -> i64 {
        outputs[0] * 1000 + outputs[1]
    }
}

fn boxed(animation: impl Animation<i64> + 'static) -> Box<dyn Animation<i64>> {
    Box::new(animation)
}

#[test]
fn hold_exposes_duration_and_ignores_ticks_while_paused() {
    let mut hold = Hold::new(7_i64, ms(100));

    assert_eq!(hold.duration(), Some(ms(100)));
    hold.pause();
    hold.tick(ms(100));
    assert_eq!(hold.state(), AnimationState::Paused);
    assert_eq!(*hold.value(), 7);

    hold.resume();
    hold.tick(ms(100));
    assert_eq!(hold.state(), AnimationState::Completed);
}

#[test]
fn hold_returns_time_beyond_its_end() {
    let mut hold = Hold::new(3_i64, ms(100));

    assert_eq!(hold.advance(ms(60)), Duration::zero());
    assert_eq!(hold.state(), AnimationState::Running);
    assert_eq!(hold.advance(ms(70)), ms(30));
    assert_eq!(hold.state(), AnimationState::Completed);
    assert_eq!(*hold.value(), 3);
}

#[test]
fn empty_sequence_remains_idle_when_advanced() {
    let mut sequence = Sequence::new(2_i64);

    let overflow = sequence.advance(ms(10));

    assert_eq!(sequence.state(), AnimationState::Idle);
    assert_eq!(overflow, ms(10));
    assert_eq!(*sequence.value(), 2);
}

#[test]
fn sequence_consumes_overflow_between_children() {
    let mut sequence: Timeline<i64> = Sequence::new(0)
        .then_play(boxed(Ramp::new(0, 100, ms(100))))
        .then_play(boxed(Hold::new(100, ms(50))))
        .then_play(boxed(Ramp::new(100, 200, ms(100))));

    sequence.tick(ms(175));

    assert_eq!(*sequence.value(), 125);
    assert_eq!(sequence.state(), AnimationState::Running);

    sequence.tick(ms(75));
    assert_eq!(sequence.state(), AnimationState::Completed);
    assert_eq!(*sequence.value(), 200);
}

#[test]
fn sequence_returns_time_beyond_its_last_child() {
    let mut sequence = Sequence::new(0_i64)
        .then_play(boxed(Ramp::new(0, 10, ms(40))))
        .then_play(boxed(Ramp::new(10, 20, ms(60))));

    assert_eq!(sequence.duration(), Some(ms(100)));
    assert_eq!(sequence.advance(ms(130)), ms(30));
    assert_eq!(sequence.state(), AnimationState::Completed);
}

#[test]
fn sequence_seek_updates_current_child_value() {
    let mut sequence = Sequence::new(0_i64)
        .then_play(boxed(Ramp::new(0, 10, ms(100))))
        .then_play(boxed(Ramp::new(10, 20, ms(100))));

    sequence.seek_to(ms(150));

    assert_eq!(sequence.state(), AnimationState::Running);
    assert_eq!(*sequence.value(), 15);

    sequence.seek_to(ms(200));
    assert_eq!(sequence.state(), AnimationState::Completed);
    assert_eq!(*sequence.value(), 20);
}

#[test]
fn sequence_with_unknown_duration_seeks_into_the_unbounded_child() {
    let mut sequence = Sequence::new(0_i64)
        .then_play(boxed(Ramp::new(0, 10, ms(100))))
        .then_play(boxed(Forever { value: 42, played: 0, state: AnimationState::Running }))
        .then_play(boxed(Ramp::new(10, 20, ms(100))));

    assert_eq!(sequence.duration(), None);
    sequence.seek_to(ms(1_000));

    assert_eq!(sequence.state(), AnimationState::Running);
    assert_eq!(*sequence.value(), 42);
}

#[test]
fn sequence_finish_uses_last_child_value() {
    let mut sequence = Sequence::new(0_i64)
        .then_play(boxed(Ramp::new(0, 10, ms(100))))
        .then_play(boxed(Ramp::new(10, 20, ms(100))));

    sequence.finish();

    assert_eq!(sequence.state(), AnimationState::Completed);
    assert_eq!(*sequence.value(), 20);
}

#[test]
fn sequence_accessors_and_lifecycle_commands_work() {
    let mut sequence = Sequence::new(0_i64);
    assert!(sequence.is_empty());

    sequence.push(boxed(Ramp::new(0, 1, ms(100))));
    assert_eq!(sequence.len(), 1);
    assert!(!sequence.is_empty());

    sequence.pause();
    assert_eq!(sequence.state(), AnimationState::Paused);
    sequence.resume();
    assert_eq!(sequence.state(), AnimationState::Running);
    sequence.cancel();
    assert_eq!(sequence.state(), AnimationState::Canceled);
}

#[test]
fn empty_parallel_remains_idle_when_advanced() {
    let mut parallel = Parallel::new(2_i64, Sum);

    let overflow = parallel.advance(ms(10));

    assert_eq!(parallel.state(), AnimationState::Idle);
    assert_eq!(overflow, ms(10));
    assert_eq!(*parallel.value(), 2);
}

#[test]
fn parallel_composes_outputs_and_finishes_after_longest_child() {
    let mut parallel = Parallel::new(0_i64, FirstAndSecond)
        .with(boxed(Ramp::new(0, 10, ms(100))))
        .with(boxed(Ramp::new(0, 20, ms(200))));

    parallel.tick(ms(100));
    assert_eq!(*parallel.value(), 10_010);
    assert_eq!(parallel.state(), AnimationState::Running);

    let overflow = parallel.advance(ms(150));
    assert_eq!(*parallel.value(), 10_020);
    assert_eq!(parallel.state(), AnimationState::Completed);
    assert_eq!(overflow, ms(50));
}

#[test]
fn parallel_accessors_duration_and_finish_work() {
    let mut parallel = Parallel::new(0_i64, Sum);
    assert!(parallel.is_empty());

    parallel.push(boxed(Ramp::new(0, 1, ms(50))));
    parallel.push(boxed(Ramp::new(0, 2, ms(100))));
    assert_eq!(parallel.len(), 2);
    assert_eq!(parallel.duration(), Some(ms(100)));

    parallel.pause();
    assert_eq!(parallel.state(), AnimationState::Paused);
    parallel.resume();
    parallel.finish();

    assert_eq!(parallel.state(), AnimationState::Completed);
    assert_eq!(*parallel.value(), 3);
}

#[test]
fn parallel_with_unknown_duration_reports_none() {
    let parallel = Parallel::new(0_i64, Sum)
        .with(boxed(Forever { value: 1, played: 0, state: AnimationState::Running }))
        .with(boxed(Ramp::new(0, 1, ms(100))));

    assert_eq!(parallel.duration(), None);
}

#[test]
fn parallel_seek_moves_every_child_to_the_same_time() {
    let mut parallel = Parallel::new(0_i64, Sum)
        .with(boxed(Ramp::new(0, 10, ms(100))))
        .with(boxed(Ramp::new(0, 20, ms(200))));

    parallel.seek_to(ms(100));

    assert_eq!(parallel.state(), AnimationState::Running);
    assert_eq!(*parallel.value(), 20);

    parallel.seek_to(ms(200));
    assert_eq!(parallel.state(), AnimationState::Completed);
    assert_eq!(*parallel.value(), 30);
}

#[test]
fn cancel_propagates_to_children() {
    let mut parallel = Parallel::new(0_i64, Sum)
        .with(boxed(Ramp::new(0, 10, ms(100))))
        .with(boxed(Ramp::new(0, 20, ms(200))));

    parallel.cancel();
    parallel.tick(ms(100));

    assert_eq!(parallel.state(), AnimationState::Canceled);
    assert_eq!(*parallel.value(), 0);
}

#[test]
fn boxed_animation_wraps_a_child() {
    let child = BoxAnimation(boxed(Hold::new(5_i64, ms(10))));

    assert_eq!(*child.0.value(), 5);
}

#[test]
fn sequence_seek_finishes_children_that_fit_and_seeks_the_next() {
    let mut sequence = Sequence::new(0)
        .then_play(Box::new(Hold::new(1, ms(10))))
        .then_play(Box::new(Hold::new(2, ms(20))));
    sequence.seek_to(ms(15));
    assert_eq!(sequence.state(), AnimationState::Running);
    assert_eq!(*sequence.value(), 2);
    sequence.seek_to(ms(5));
    assert_eq!(sequence.state(), AnimationState::Running);
    assert_eq!(*sequence.value(), 1);
    sequence.seek_to(ms(30));
    assert_eq!(sequence.state(), AnimationState::Completed);
    assert_eq!(*sequence.value(), 2);
}
