use roll_and_dice::clock::{
    SimulationClock, MAX_TICKS_PER_FRAME, MAX_TIME_BEHIND, TICKS_PER_SEC, TICK_RATE,
    TIME_STEPS_PER_SEC,
};

fn expected_ticks(tick_time: u64, now: u64) -> u64 {
    let from = if now > tick_time + MAX_TIME_BEHIND { now - MAX_TIME_BEHIND } else { tick_time };
    if from >= now {
        0
    } else {
        let lag = (now - from) as f64;
        (lag / TICK_RATE as f64).ceil() as u64
    }
}

#[test]
fn constants_agree() {
    assert_eq!(TICKS_PER_SEC, 60);
    assert_eq!(TIME_STEPS_PER_SEC, 60_000);
    assert_eq!(TICK_RATE * TICKS_PER_SEC as u64, TIME_STEPS_PER_SEC);
    assert_eq!(MAX_TIME_BEHIND * 5, TIME_STEPS_PER_SEC);
    assert_eq!(MAX_TICKS_PER_FRAME as u64, MAX_TIME_BEHIND / TICK_RATE);
}

#[test]
fn new_clock_has_nothing_to_catch_up() {
    let mut clock = SimulationClock::new(5_000);
    assert_eq!(clock.tick_time, 5_000);
    assert!(!clock.tick_due(5_000));
    assert_eq!(clock.begin_frame(5_000), 0);
    assert_eq!(clock.tick_time, 5_000);
}

#[test]
fn no_tick_while_simulated_time_is_ahead() {
    let mut clock = SimulationClock::new(9_000);
    assert_eq!(clock.begin_frame(8_999), 0);
    assert_eq!(clock.tick_time, 9_000);
    assert_eq!(clock.begin_frame(0), 0);
    assert_eq!(clock.tick_time, 9_000);
}

#[test]
fn lag_is_rounded_up_to_whole_ticks() {
    let mut clock = SimulationClock::new(0);
    assert_eq!(clock.begin_frame(1), 1);
    assert_eq!(clock.tick_time, 1_000);

    let mut clock = SimulationClock::new(0);
    assert_eq!(clock.begin_frame(1_000), 1);
    assert_eq!(clock.tick_time, 1_000);

    let mut clock = SimulationClock::new(0);
    assert_eq!(clock.begin_frame(1_001), 2);
    assert_eq!(clock.tick_time, 2_000);

    let mut clock = SimulationClock::new(0);
    assert_eq!(clock.begin_frame(2_500), 3);
    assert_eq!(clock.tick_time, 3_000);
}

#[test]
fn a_frame_inside_the_last_tick_runs_nothing() {
    let mut clock = SimulationClock::new(0);
    assert_eq!(clock.begin_frame(2_500), 3);
    assert_eq!(clock.begin_frame(2_700), 0);
    assert_eq!(clock.begin_frame(3_000), 0);
    assert_eq!(clock.begin_frame(3_001), 1);
    assert_eq!(clock.tick_time, 4_000);
}

#[test]
fn a_stall_is_capped() {
    let mut clock = SimulationClock::new(0);
    assert_eq!(clock.begin_frame(1_000_000), 12);
    assert_eq!(clock.tick_time, 1_000_000);
}

#[test]
fn lag_at_the_cap_is_not_clamped() {
    let mut clock = SimulationClock::new(100);
    assert_eq!(clock.begin_frame(12_100), 12);
    assert_eq!(clock.tick_time, 12_100);

    let mut clock = SimulationClock::new(100);
    assert_eq!(clock.begin_frame(12_101), 12);
    assert_eq!(clock.tick_time, 12_101);
}

#[test]
fn clamp_lag_only_moves_a_clock_that_is_far_behind() {
    let mut clock = SimulationClock::new(1_000);
    clock.clamp_lag(13_000);
    assert_eq!(clock.tick_time, 1_000);
    clock.clamp_lag(13_001);
    assert_eq!(clock.tick_time, 1_001);
    clock.clamp_lag(500);
    assert_eq!(clock.tick_time, 1_001);
}

#[test]
fn tick_due_compares_with_now() {
    let clock = SimulationClock::new(700);
    assert!(clock.tick_due(701));
    assert!(!clock.tick_due(700));
    assert!(!clock.tick_due(699));
}

#[test]
fn tick_count_is_the_ceiling_of_the_clamped_lag() {
    for tick_time in [0u64, 1, 999, 1_000, 5_432, 60_000] {
        for offset in 0..15_000u64 {
            let now = tick_time.saturating_sub(2_000) + offset;
            let mut clock = SimulationClock::new(tick_time);
            let ticks = clock.begin_frame(now) as u64;
            assert_eq!(ticks, expected_ticks(tick_time, now), "tick_time {} now {}", tick_time, now);
            assert!(ticks <= MAX_TICKS_PER_FRAME as u64);
            if ticks > 0 {
                assert!(clock.tick_time >= now);
                assert!(clock.tick_time < now + TICK_RATE);
                assert!(clock.tick_time - TICK_RATE < now);
            } else {
                assert_eq!(clock.tick_time, tick_time);
            }
        }
    }
}

#[test]
fn steady_frames_tick_at_the_fixed_rate() {
    // 144 frames per second for one second: 60 ticks.
    let mut clock = SimulationClock::new(0);
    let mut ticks = 0;
    for frame in 1..=144u64 {
        ticks += clock.begin_frame(frame * 60_000 / 144);
    }
    assert_eq!(ticks, 60);
}

#[test]
fn the_largest_time_is_accepted() {
    let now = u64::MAX - TICK_RATE;
    let mut clock = SimulationClock::new(now - 1);
    assert_eq!(clock.begin_frame(now), 1);
    assert_eq!(clock.tick_time, now - 1 + TICK_RATE);
}
