use roll_and_dice::waves::{
    late_game_wave, next_wave, set_wave, wave_for, Wave, LATE_GAME_WAVE_COUNT, SET_WAVE_COUNT,
};

fn wave(lemons: (u8, u8), grapes: (u8, u8), breads: (u8, u8)) -> Wave {
    Wave { lemons, grapes, breads }
}

fn intro() -> Vec<Wave> {
    vec![
        wave((1, 1), (0, 0), (0, 0)),
        wave((3, 3), (0, 0), (0, 0)),
        wave((4, 6), (0, 0), (0, 0)),
        wave((4, 6), (0, 0), (0, 0)),
        wave((4, 4), (1, 2), (1, 1)),
        wave((1, 2), (3, 3), (1, 1)),
        wave((1, 1), (0, 0), (0, 0)),
        wave((1, 1), (0, 0), (0, 0)),
        wave((4, 6), (0, 0), (0, 0)),
        wave((0, 0), (5, 5), (3, 3)),
    ]
}

fn pool() -> Vec<Wave> {
    vec![
        wave((10, 20), (0, 1), (0, 1)),
        wave((0, 3), (5, 10), (0, 1)),
        wave((0, 0), (0, 2), (5, 10)),
        wave((2, 5), (0, 4), (0, 2)),
        wave((2, 5), (0, 1), (0, 1)),
    ]
}

#[test]
fn lems_fills_only_the_lemon_pair() {
    let w = Wave::lems(4, 6);
    assert_eq!(w.lemons, (4, 6));
    assert_eq!(w.grapes, (0, 0));
    assert_eq!(w.breads, (0, 0));
}

#[test]
fn default_wave_is_empty() {
    assert_eq!(Wave::default(), wave((0, 0), (0, 0), (0, 0)));
}

#[test]
fn table_sizes() {
    assert_eq!(SET_WAVE_COUNT, 10);
    assert_eq!(LATE_GAME_WAVE_COUNT, 5);
    assert_eq!(intro().len(), SET_WAVE_COUNT);
    assert_eq!(pool().len(), LATE_GAME_WAVE_COUNT);
}

#[test]
fn intro_waves_come_in_order() {
    let expected = intro();
    for i in 0..expected.len() {
        assert_eq!(next_wave(i as i32), expected[i], "wave {}", i);
        assert_eq!(set_wave(i), expected[i], "wave {}", i);
    }
}

#[test]
fn late_game_table_is_as_written() {
    let expected = pool();
    for i in 0..expected.len() {
        assert_eq!(late_game_wave(i), expected[i], "pool entry {}", i);
    }
}

#[test]
fn waves_past_the_intro_come_from_the_pool() {
    let intro = intro();
    let pool = pool();
    for n in [10, 11, 12, 50, 1000, i32::MAX] {
        for _ in 0..20 {
            let w = next_wave(n);
            assert!(pool.contains(&w), "wave {} is not of the pool: {:?}", n, w);
            assert!(!intro.contains(&w), "wave {} is an intro wave: {:?}", n, w);
        }
    }
}

#[test]
fn negative_wave_numbers_come_from_the_pool() {
    let pool = pool();
    for n in [-1, -10, i32::MIN] {
        assert!(pool.contains(&next_wave(n)));
    }
}

#[test]
fn pool_entries_can_repeat() {
    // Six waves out of a pool of five: at least one comes twice.
    let mut seen: Vec<Wave> = Vec::new();
    let mut repeated = false;
    for _ in 0..6 {
        let w = next_wave(10);
        if seen.contains(&w) {
            repeated = true;
        }
        seen.push(w);
    }
    assert!(repeated);
}

#[test]
fn late_game_draws_vary() {
    // A generator that always returned one of its bounds would pick the same
    // pool entry every time.
    let first = next_wave(10);
    let mut varied = false;
    for _ in 0..500 {
        if next_wave(10) != first {
            varied = true;
        }
    }
    assert!(varied);
}

#[test]
fn wave_for_ignores_the_draw_during_the_intro() {
    let expected = intro();
    for i in 0..expected.len() {
        for draw in [-7, 0, 3, 99] {
            assert_eq!(wave_for(i as i32, draw), expected[i]);
        }
    }
}

#[test]
fn wave_for_indexes_the_pool_by_the_draw() {
    let pool = pool();
    for draw in 0..5 {
        assert_eq!(wave_for(10, draw), pool[draw as usize]);
        assert_eq!(wave_for(-1, draw), pool[draw as usize]);
    }
}

#[test]
fn wave_for_moves_stray_draws_into_the_pool() {
    let pool = pool();
    assert_eq!(wave_for(10, -1), pool[0]);
    assert_eq!(wave_for(10, i32::MIN), pool[0]);
    assert_eq!(wave_for(10, 5), pool[4]);
    assert_eq!(wave_for(10, i32::MAX), pool[4]);
}

#[test]
fn every_table_entry_has_ordered_pairs() {
    for w in intro().into_iter().chain(pool()) {
        assert!(w.lemons.0 <= w.lemons.1);
        assert!(w.grapes.0 <= w.grapes.1);
        assert!(w.breads.0 <= w.breads.1);
    }
}
