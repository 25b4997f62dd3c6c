use aura_anim_core::{TickPolicy, TickRequest, WindowFrame};
use std::time::Duration;

#[test]
fn default_policy_uses_window_frames() {
    assert_eq!(TickPolicy::default(), TickPolicy::Frames);
    assert_eq!(TickPolicy::frames(), TickPolicy::Frames);
}

#[test]
fn interval_policy_preserves_duration() {
    let duration = Duration::from_millis(20);

    assert_eq!(
        TickPolicy::interval(duration),
        TickPolicy::Interval(duration)
    );
}

#[test]
fn fps_policy_converts_rate_to_interval() {
    assert_eq!(
        TickPolicy::fps(50),
        TickPolicy::Interval(Duration::from_millis(20))
    );
    assert_eq!(
        TickPolicy::fps(0),
        TickPolicy::Interval(Duration::from_secs(1))
    );
}

#[test]
fn fps_zero_is_treated_as_one_frame_per_second() {
    assert_eq!(TickPolicy::fps(0), TickPolicy::fps(1));
}

#[test]
fn fps_rounds_to_the_nearest_nanosecond() {
    assert_eq!(
        TickPolicy::fps(60),
        TickPolicy::Interval(Duration::from_nanos(16_666_667))
    );
    assert_eq!(
        TickPolicy::fps(3),
        TickPolicy::Interval(Duration::from_nanos(333_333_333))
    );
    assert_eq!(
        TickPolicy::fps(7),
        TickPolicy::Interval(Duration::from_nanos(142_857_143))
    );
    assert_eq!(
        TickPolicy::fps(u16::MAX),
        TickPolicy::Interval(Duration::from_nanos(15_259))
    );
}

#[test]
fn fps_half_nanosecond_ties_follow_the_reciprocal() {
    assert_eq!(
        TickPolicy::fps(1024),
        TickPolicy::Interval(Duration::from_nanos(976_562))
    );
    assert_eq!(
        TickPolicy::fps(5120),
        TickPolicy::Interval(Duration::from_nanos(195_313))
    );
    assert_eq!(
        TickPolicy::fps(25600),
        TickPolicy::Interval(Duration::from_nanos(39_063))
    );
}

#[test]
fn window_frames_carry_their_window_and_instant() {
    let window = iced_core::window::Id::unique();
    let at = std::time::Instant::now();
    let frame = WindowFrame { window, at };

    assert_eq!(frame.window, window);
    assert_eq!(frame.at, at);
}

#[test]
fn idle_runtime_requests_no_ticks() {
    assert_eq!(TickPolicy::frames().request(false), TickRequest::Idle);
    assert_eq!(TickPolicy::interval(Duration::from_millis(20)).request(false), TickRequest::Idle);
}

#[test]
fn active_runtime_requests_frames_or_its_interval() {
    assert_eq!(TickPolicy::frames().request(true), TickRequest::Frames);
    assert_eq!(
        TickPolicy::interval(Duration::from_millis(20)).request(true),
        TickRequest::Every(Duration::from_millis(20))
    );
}

#[test]
fn intervals_shorter_than_a_millisecond_are_raised_to_one() {
    assert_eq!(TickPolicy::interval(Duration::ZERO).request(true), TickRequest::Every(Duration::from_millis(1)));
    assert_eq!(
        TickPolicy::interval(Duration::from_micros(250)).request(true),
        TickRequest::Every(Duration::from_millis(1))
    );
}
