use roll_and_dice::body::Body;
use roll_and_dice::geom::{dist_sq, step_towards, Vec2, UNIT};
use roll_and_dice::lemon::{
    Lemon, LEMONS_MAX, LEMON_ATTACKS_AFTER_MAX, LEMON_ATTACKS_AFTER_MIN, LEMON_RADIUS,
    LEMON_SPEED_ATTACK, LEMON_SPEED_WANDER, LEMON_WANDER_CLOSE,
};

fn v(x: i32, y: i32) -> Vec2 {
    Vec2 { x, y }
}

fn units(x: i32, y: i32) -> Vec2 {
    Vec2 { x: x * UNIT, y: y * UNIT }
}

#[test]
fn lemon_constants() {
    assert_eq!(LEMONS_MAX, 64);
    assert_eq!(LEMON_SPEED_WANDER, UNIT / 2);
    assert_eq!(LEMON_WANDER_CLOSE, 10 * UNIT);
    assert_eq!(LEMON_SPEED_ATTACK, 18_000);
    assert_eq!(LEMON_ATTACKS_AFTER_MIN, 3 * 60);
    assert_eq!(LEMON_ATTACKS_AFTER_MAX, 20 * 60);
    assert_eq!(LEMON_RADIUS, 10 * UNIT);
}

#[test]
fn a_new_lemon_stands_at_its_spawn_point() {
    for _ in 0..200 {
        let lemon = Lemon::new(units(3, 4));
        assert_eq!(lemon.pos, units(3, 4));
        assert_eq!(lemon.wander_to, units(3, 4));
        assert!(lemon.attacks_in >= LEMON_ATTACKS_AFTER_MIN);
        assert!(lemon.attacks_in <= LEMON_ATTACKS_AFTER_MAX);
        assert!(!lemon.is_attacking());
    }
}

#[test]
fn new_lemons_differ_in_their_countdown() {
    let first = Lemon::new(units(0, 0)).attacks_in;
    let mut varied = false;
    for _ in 0..500 {
        if Lemon::new(units(0, 0)).attacks_in != first {
            varied = true;
        }
    }
    assert!(varied);
}

#[test]
fn body_of_a_lemon() {
    let lemon = Lemon { pos: units(7, 8), wander_to: units(0, 0), attacks_in: 3 };
    assert_eq!(lemon.centre(), units(7, 8));
    assert_eq!(lemon.radius(), LEMON_RADIUS);
}

#[test]
fn attacking_means_countdown_at_or_below_zero() {
    let at = |n: i32| Lemon { pos: v(0, 0), wander_to: v(0, 0), attacks_in: n };
    assert!(!at(2).is_attacking());
    assert!(!at(1).is_attacking());
    assert!(at(0).is_attacking());
    assert!(at(-1).is_attacking());
    assert!(at(i32::MIN).is_attacking());
}

#[test]
fn wandering_towards_a_far_target() {
    // 30 and 40 units from the target: half a unit per tick is 0.3 and 0.4.
    let mut lemon = Lemon { pos: units(100, 100), wander_to: units(130, 140), attacks_in: 10 };
    assert!(!lemon.wants_target());
    lemon.tick_with(units(600, 300), units(1, 1));
    assert_eq!(lemon.pos, v(1_003_000, 1_004_000));
    assert_eq!(lemon.wander_to, units(130, 140));
    assert_eq!(lemon.attacks_in, 9);
}

#[test]
fn a_lemon_close_to_its_target_takes_the_new_one() {
    let mut lemon = Lemon { pos: units(100, 100), wander_to: units(106, 100), attacks_in: 10 };
    assert!(lemon.wants_target());
    lemon.tick_with(units(600, 300), units(100, 500));
    assert_eq!(lemon.wander_to, units(100, 500));
    assert_eq!(lemon.pos, v(1_000_000, 1_005_000));
    assert_eq!(lemon.attacks_in, 9);
}

#[test]
fn closeness_to_the_target_is_strict() {
    let at = |d: i32| Lemon { pos: v(0, 0), wander_to: v(d, 0), attacks_in: 10 };
    assert!(at(LEMON_WANDER_CLOSE - 1).wants_target());
    assert!(!at(LEMON_WANDER_CLOSE).wants_target());
}

#[test]
fn charging_heads_for_the_player() {
    let mut lemon = Lemon { pos: units(100, 100), wander_to: units(500, 100), attacks_in: 0 };
    lemon.tick_with(units(130, 140), units(1, 1));
    assert_eq!(lemon.pos, v(1_010_800, 1_014_400));
    assert_eq!(lemon.wander_to, units(500, 100));
    assert_eq!(lemon.attacks_in, 0);
}

#[test]
fn the_last_wandering_tick_still_wanders() {
    let mut lemon = Lemon { pos: units(100, 100), wander_to: units(130, 140), attacks_in: 1 };
    lemon.tick_with(units(100, 700), units(1, 1));
    assert_eq!(lemon.pos, v(1_003_000, 1_004_000));
    assert_eq!(lemon.attacks_in, 0);
    assert!(lemon.is_attacking());
}

#[test]
fn five_ticks_of_wandering_then_the_charge() {
    let player = units(640, 360);
    let mut lemon = Lemon { pos: units(100, 100), wander_to: units(100, 100), attacks_in: 5 };
    for tick in 1..=5 {
        assert!(!lemon.is_attacking());
        lemon.tick(player);
        assert_eq!(lemon.attacks_in, 5 - tick);
    }
    assert_eq!(lemon.attacks_in, 0);
    assert!(lemon.is_attacking());

    let before = lemon;
    lemon.tick(player);
    assert_eq!(lemon.pos, step_towards(before.pos, player, LEMON_SPEED_ATTACK));
    assert_ne!(lemon.pos, step_towards(before.pos, before.wander_to, LEMON_SPEED_WANDER));
    assert_eq!(lemon.wander_to, before.wander_to);
    assert_eq!(lemon.attacks_in, 0);
    // Nearer to the player by a charging step, give or take the rounding.
    let gain = (dist_sq(before.pos, player) as f64).sqrt() - (dist_sq(lemon.pos, player) as f64).sqrt();
    assert!((gain - LEMON_SPEED_ATTACK as f64).abs() < 2.0);
}

#[test]
fn a_charging_lemon_never_wanders_again() {
    for start in [0, -1, -500] {
        let mut player = units(900, 600);
        let mut lemon = Lemon { pos: units(100, 100), wander_to: units(100, 100), attacks_in: start };
        for tick in 0..2_000 {
            if tick % 300 == 0 {
                player = units(1280 - player.x / UNIT, 720 - player.y / UNIT);
            }
            let before = lemon;
            lemon.tick(player);
            assert!(lemon.is_attacking());
            assert_eq!(lemon.attacks_in, start);
            assert_eq!(lemon.wander_to, before.wander_to);
            assert_eq!(lemon.pos, step_towards(before.pos, player, LEMON_SPEED_ATTACK));
        }
    }
}

#[test]
fn a_wandering_lemon_picks_targets_inside_the_world() {
    let player = units(640, 360);
    let mut lemon = Lemon::new(units(50, 50));
    let wander_ticks = lemon.attacks_in;
    for _ in 0..wander_ticks {
        let before = lemon;
        lemon.tick(player);
        assert_eq!(lemon.attacks_in, before.attacks_in - 1);
        assert!(0 <= lemon.wander_to.x && lemon.wander_to.x <= 1280 * UNIT);
        assert!(0 <= lemon.wander_to.y && lemon.wander_to.y <= 720 * UNIT);
        assert_eq!(lemon.pos, step_towards(before.pos, lemon.wander_to, LEMON_SPEED_WANDER));
        if !before.wants_target() {
            assert_eq!(lemon.wander_to, before.wander_to);
        }
    }
    assert!(lemon.is_attacking());
}

#[test]
fn a_lemon_on_top_of_the_player_stays_put() {
    let mut lemon = Lemon { pos: units(10, 10), wander_to: units(0, 0), attacks_in: 0 };
    lemon.tick(units(10, 10));
    assert_eq!(lemon.pos, units(10, 10));
}
