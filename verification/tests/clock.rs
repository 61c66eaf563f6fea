use std::time::Duration;

use explore::state::clock::GameClock;

#[test]
fn new_clock_is_not_paused() {
    let clock = GameClock::new();
    assert!(!clock.is_paused());
    assert_eq!(clock.elapsed(), Duration::ZERO);
}

#[test]
fn toggle_pause_works() {
    let mut clock = GameClock::new();
    clock.toggle_pause();
    assert!(clock.is_paused());
    clock.toggle_pause();
    assert!(!clock.is_paused());
}

#[test]
fn advance_returns_zero_when_paused() {
    let mut clock = GameClock::new();
    clock.toggle_pause();
    assert_eq!(clock.advance(), 0);
}

#[test]
fn advance_by_produces_expected_ticks() {
    let mut clock = GameClock::new();
    let one_sec = Duration::from_secs(1);
    let ticks = clock.advance_by(one_sec);
    let nanos_per_tick = 33_333_333;
    assert_eq!(ticks, (1_000_000_000 / nanos_per_tick) as u32);
}

#[test]
fn elapsed_matches_advanced_time() {
    let mut clock = GameClock::new();
    let one_sec = Duration::from_secs(1);
    let ticks = clock.advance_by(one_sec);
    assert_eq!(clock.elapsed().as_nanos() as u64, ticks as u64 * 33_333_333);
}

#[test]
fn elapsed_formatted_shows_seconds() {
    let mut clock = GameClock::new();
    clock.advance_by(Duration::from_secs(65));
    assert_eq!(clock.elapsed_formatted(), "01:04");
}

#[test]
fn elapsed_formatted_shows_hours() {
    let mut clock = GameClock::new();
    clock.advance_by(Duration::from_secs(3661));
    assert_eq!(clock.elapsed_formatted(), "01:01:00");
}

#[test]
fn elapsed_formatted_zero() {
    let clock = GameClock::new();
    assert_eq!(clock.elapsed_formatted(), "00:00");
}

#[test]
fn advance_by_30s_produces_900_ticks() {
    let mut clock = GameClock::new();
    assert_eq!(clock.advance_by(Duration::from_secs(30)), 900);
    assert_eq!(clock.advance_by(Duration::from_secs(30)), 900);
}

#[test]
fn accumulate_hands_out_whole_ticks_and_keeps_the_rest() {
    let mut clock = GameClock::new();
    assert_eq!(clock.accumulate(20_000_000), 0);
    assert_eq!(clock.accumulate(20_000_000), 1);
    // 40 ms in: one tick out, 6_666_667 ns held; the next 30 ms make one more.
    assert_eq!(clock.accumulate(30_000_000), 1);
    assert_eq!(clock.elapsed().as_nanos(), 2 * 33_333_333);
}

#[test]
fn long_frames_are_capped() {
    let mut clock = GameClock::new();
    // A 10 s frame counts as 100 ms: three ticks out, 1 ns held.
    assert_eq!(clock.accumulate(10_000_000_000), 3);
    assert_eq!(clock.accumulate(0), 0);
    assert_eq!(clock.elapsed().as_nanos(), 3 * 33_333_333);
}

#[test]
fn manual_step_works_while_paused() {
    let mut clock = GameClock::new();
    clock.toggle_pause();
    assert_eq!(clock.advance_by(Duration::from_secs(1)), 30);
    assert!(clock.is_paused());
    assert_eq!(clock.advance(), 0);
    assert_eq!(clock.elapsed_formatted(), "00:00");
    assert_eq!(clock.try_advance_by(Duration::from_secs(2)), Some(60));
    assert_eq!(clock.elapsed_formatted(), "00:02");
}

#[test]
fn formatted_time_pads_and_rolls_over() {
    let mut clock = GameClock::new();
    clock.advance_by(Duration::from_secs(36_005));
    assert_eq!(clock.elapsed_formatted(), "10:00:04");
}
