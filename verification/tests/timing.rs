use aura_anim_core::timing::clock::TimingClock;
use aura_anim_core::timing::{
    Delay, Direction, Duration, IterationCount, Timing, TimingPhase,
};
use aura_anim_core::AnimationState;

fn ms(value: u64) -> Duration {
    Duration::from_millis_u64(value)
}

#[test]
fn duration_arithmetic_is_exact() {
    let a = ms(150);
    let b = ms(50);

    assert_eq!(a.as_nanos(), 150_000_000);
    assert_eq!(a.checked_add(b), Some(ms(200)));
    assert_eq!(a.saturating_sub(b), ms(100));
    assert_eq!(b.saturating_sub(a), Duration::zero());
    assert_eq!(a.min(b), b);
    assert_eq!(a.max(b), a);
    assert!(a.at_least(b));
    assert!(!b.at_least(a));
    assert_eq!(b.checked_mul(3), Some(ms(150)));
    assert!(Duration::zero().is_zero());
    assert!(!b.is_zero());
}

#[test]
fn duration_parts_and_standard_conversions_round_trip() {
    let d = Duration::new(2, 1_500_000_000);

    assert_eq!(d.as_secs_whole(), 3);
    assert_eq!(d.subsec_nanos(), 500_000_000);
    assert_eq!(d.to_std(), std::time::Duration::new(3, 500_000_000));
    assert_eq!(
        Duration::from_std(std::time::Duration::from_millis(1_250)),
        ms(1_250)
    );
    assert_eq!(Duration::from_nanos(7).as_nanos(), 7);
}

#[test]
fn duration_sums_beyond_the_range_are_rejected_or_saturated() {
    let max = Duration::new(u64::MAX, 999_999_999);

    assert_eq!(max.checked_add(Duration::from_nanos(1)), None);
    assert_eq!(max.saturating_add(Duration::from_nanos(1)), max);
    assert_eq!(max.checked_mul(2), None);
}

#[test]
fn delays_add_to_and_subtract_from_durations() {
    let delay = Delay::from_millis_u64(30);

    assert_eq!(ms(100).checked_add_delay(delay), Some(ms(130)));
    assert_eq!(ms(100).checked_sub_delay(delay), Some(ms(70)));
    assert_eq!(ms(10).checked_sub_delay(delay), None);
}

#[test]
fn timing_total_includes_delay_and_iterations() {
    let timing = Timing::new(ms(100))
        .with_delay(Delay::from_millis_u64(50))
        .with_iterations(IterationCount::finite(3));

    assert_eq!(timing.active_duration(), Some(ms(300)));
    assert_eq!(timing.total_duration(), Some(ms(350)));
    assert_eq!(timing.duration(), ms(100));
    assert_eq!(timing.delay(), Delay::from_millis_u64(50));
}

#[test]
fn infinite_timing_has_no_total_duration() {
    let timing = Timing::new(ms(100)).with_iterations(IterationCount::infinite());

    assert_eq!(timing.active_duration(), None);
    assert_eq!(timing.total_duration(), None);
}

#[test]
fn default_timing_is_zero_length_single_iteration() {
    let timing = Timing::default();

    assert_eq!(timing.duration(), Duration::zero());
    assert_eq!(timing.iterations(), IterationCount::finite(1));
    assert_eq!(timing.direction(), Direction::Normal);
    assert_eq!(timing.total_duration(), Some(Duration::zero()));
}

#[test]
fn phase_follows_delay_iterations_and_direction() {
    let timing = Timing::new(ms(100))
        .with_delay(Delay::from_millis_u64(20))
        .with_iterations(IterationCount::finite(2))
        .with_direction(Direction::Alternate);

    assert_eq!(timing.phase_at(ms(10)), TimingPhase::Delayed);
    assert_eq!(
        timing.phase_at(ms(45)),
        TimingPhase::Active { iteration: 0, offset: ms(25), reversed: false }
    );
    assert_eq!(
        timing.phase_at(ms(150)),
        TimingPhase::Active { iteration: 1, offset: ms(30), reversed: true }
    );
    assert_eq!(timing.phase_at(ms(220)), TimingPhase::Finished);
    assert_eq!(timing.phase_at(ms(500)), TimingPhase::Finished);
}

#[test]
fn zero_length_timing_finishes_after_its_delay() {
    let timing = Timing::new(Duration::zero()).with_delay(Delay::from_millis_u64(5));

    assert_eq!(timing.phase_at(ms(1)), TimingPhase::Delayed);
    assert_eq!(timing.phase_at(ms(5)), TimingPhase::Finished);
}

#[test]
fn infinite_timing_keeps_cycling() {
    let timing = Timing::new(ms(10))
        .with_iterations(IterationCount::infinite())
        .with_direction(Direction::AlternateReverse);

    assert_eq!(
        timing.phase_at(ms(1_005)),
        TimingPhase::Active { iteration: 100, offset: ms(5), reversed: true }
    );
}

#[test]
fn direction_reversal_by_iteration() {
    assert!(!Direction::Normal.is_reversed_iteration(3));
    assert!(Direction::Reverse.is_reversed_iteration(0));
    assert!(Direction::Alternate.is_reversed_iteration(1));
    assert!(!Direction::Alternate.is_reversed_iteration(2));
    assert!(Direction::AlternateReverse.is_reversed_iteration(0));
    assert!(Direction::Alternate.ends_reversed(2));
    assert!(!Direction::AlternateReverse.ends_reversed(2));
    assert!(!Direction::Normal.ends_reversed(0));
}

#[test]
fn clock_consumes_only_the_remaining_time() {
    let mut clock = TimingClock::new(Timing::new(ms(100)), AnimationState::Running);

    assert_eq!(clock.advance(ms(60)), Duration::zero());
    assert_eq!(clock.elapsed(), ms(60));
    assert_eq!(clock.remaining(), Some(ms(40)));
    assert_eq!(clock.advance(ms(70)), ms(30));
    assert_eq!(clock.elapsed(), ms(100));
    assert_eq!(clock.phase(), TimingPhase::Finished);
}

#[test]
fn clock_ignores_time_while_paused_and_cancels_idle_only_on_request() {
    let mut clock = TimingClock::new(Timing::new(ms(100)), AnimationState::Running);
    clock.pause();
    assert!(!clock.tick(ms(50)));
    assert_eq!(clock.advance(ms(50)), ms(50));
    assert_eq!(clock.elapsed(), Duration::zero());
    clock.resume();
    assert!(clock.tick(ms(50)));
    assert_eq!(clock.elapsed(), ms(50));

    let mut idle = TimingClock::new(Timing::new(ms(100)), AnimationState::Idle);
    idle.cancel(false);
    assert_eq!(idle.state(), AnimationState::Idle);
    idle.cancel(true);
    assert_eq!(idle.state(), AnimationState::Canceled);
}

#[test]
fn clock_seek_is_limited_and_restarts_running() {
    let mut clock = TimingClock::new(Timing::new(ms(100)), AnimationState::Completed);

    clock.seek_to(ms(250), ms(100));
    assert_eq!(clock.elapsed(), ms(100));
    assert_eq!(clock.state(), AnimationState::Running);
    clock.restart();
    assert_eq!(clock.elapsed(), Duration::zero());
    clock.finish();
    assert_eq!(clock.state(), AnimationState::Completed);
}

#[test]
fn named_easings_pick_their_curves() {
    assert!(matches!(Timing::new(ms(10)).easing(), lilt::Easing::Linear));
    assert!(matches!(Timing::ease_in(ms(10)).easing(), lilt::Easing::EaseIn));
    assert!(matches!(Timing::ease_out(ms(10)).easing(), lilt::Easing::EaseOut));
    assert!(matches!(Timing::ease_in_out(ms(10)).easing(), lilt::Easing::EaseInOut));
}
