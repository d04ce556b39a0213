use roll_and_dice::body::Body;
use roll_and_dice::bread::{
    Bread, BREADS_MAX, BREAD_CHANGE_WARN_TICKS, BREAD_IDLE_MAX, BREAD_IDLE_MIN, BREAD_RADIUS,
    BREAD_SPEED,
};
use roll_and_dice::geom::{dist_sq, Vec2, UNIT, WORLD_HEIGHT, WORLD_WIDTH};
use roll_and_dice::random::TOO_CLOSE;

fn v(x: i32, y: i32) -> Vec2 {
    Vec2 { x, y }
}

fn units(x: i32, y: i32) -> Vec2 {
    Vec2 { x: x * UNIT, y: y * UNIT }
}

#[test]
fn bread_constants() {
    assert_eq!(BREADS_MAX, 10);
    assert_eq!(BREAD_RADIUS, 20 * UNIT);
    assert_eq!(BREAD_IDLE_MIN, 4 * 60);
    assert_eq!(BREAD_IDLE_MAX, 6 * 60);
    assert_eq!(BREAD_CHANGE_WARN_TICKS, 3 * 60);
    assert_eq!(BREAD_SPEED, 8 * UNIT);
}

#[test]
fn a_new_bread_is_idle_somewhere_in_the_world() {
    for _ in 0..100 {
        let bread = Bread::new(units(640, 360));
        assert!(0 <= bread.pos.x && bread.pos.x <= WORLD_WIDTH);
        assert!(0 <= bread.pos.y && bread.pos.y <= WORLD_HEIGHT);
        assert_eq!(bread.ticks_until_charge, BREAD_IDLE_MIN);
        assert_eq!(bread.attacking, v(0, 0));
        assert!(bread.is_idle());
    }
}

#[test]
fn body_of_a_bread() {
    let bread = Bread { pos: units(7, 8), ticks_until_charge: 3, attacking: v(0, 0) };
    assert_eq!(bread.centre(), units(7, 8));
    assert_eq!(bread.radius(), BREAD_RADIUS);
}

#[test]
fn an_idle_bread_counts_down_in_place() {
    let mut bread = Bread { pos: units(50, 50), ticks_until_charge: 240, attacking: v(0, 0) };
    assert!(!bread.tick(units(640, 360)));
    assert_eq!(bread, Bread { pos: units(50, 50), ticks_until_charge: 239, attacking: v(0, 0) });
}

#[test]
fn the_warning_comes_once_in_a_cycle() {
    let mut bread = Bread { pos: units(50, 50), ticks_until_charge: BREAD_IDLE_MIN, attacking: v(0, 0) };
    let mut warnings = 0;
    let mut warned_at = 0;
    while bread.is_idle() {
        if bread.tick(units(640, 360)) {
            warnings += 1;
            warned_at = bread.ticks_until_charge;
        }
    }
    assert_eq!(warnings, 1);
    assert_eq!(warned_at, BREAD_CHANGE_WARN_TICKS);
}

#[test]
fn the_aim_is_taken_when_the_countdown_ends() {
    let mut bread = Bread { pos: units(50, 50), ticks_until_charge: 2, attacking: v(0, 0) };
    assert!(!bread.tick(units(600, 300)));
    assert_eq!(bread.attacking, v(0, 0));
    assert_eq!(bread.ticks_until_charge, 1);
    assert!(!bread.tick(units(610, 310)));
    assert_eq!(bread.attacking, units(610, 310));
    assert_eq!(bread.ticks_until_charge, 0);
    assert_eq!(bread.pos, units(50, 50));
    assert!(!bread.is_idle());
}

#[test]
fn a_charge_is_not_aimed_anew() {
    // 300 and 400 units from the aim: eight units per tick are 4.8 and 6.4.
    let mut bread = Bread { pos: units(100, 100), ticks_until_charge: 0, attacking: units(400, 500) };
    assert!(!bread.tick(units(1000, 100)));
    assert_eq!(bread.pos, v(1_048_000, 1_064_000));
    assert_eq!(bread.attacking, units(400, 500));
    assert_eq!(bread.ticks_until_charge, 0);
    assert!(!bread.tick_with(units(0, 0), 300));
    assert_eq!(bread.pos, v(1_096_000, 1_128_000));
    assert_eq!(bread.attacking, units(400, 500));
}

#[test]
fn a_bread_within_a_step_lands_on_its_aim() {
    let aim = units(400, 500);
    let mut bread = Bread { pos: v(aim.x - BREAD_SPEED + 1, aim.y), ticks_until_charge: 0, attacking: aim };
    assert!(bread.arrives());
    assert!(!bread.tick_with(units(0, 0), 321));
    assert_eq!(bread, Bread { pos: aim, ticks_until_charge: 321, attacking: aim });
}

#[test]
fn a_bread_exactly_a_step_away_still_moves() {
    let aim = units(400, 500);
    let mut bread = Bread { pos: v(aim.x - BREAD_SPEED, aim.y), ticks_until_charge: 0, attacking: aim };
    assert!(!bread.arrives());
    assert!(!bread.tick_with(units(0, 0), 321));
    assert_eq!(bread, Bread { pos: aim, ticks_until_charge: 0, attacking: aim });
    // Now it is on its aim, lands, and is idle again.
    assert!(!bread.tick_with(units(0, 0), 321));
    assert_eq!(bread, Bread { pos: aim, ticks_until_charge: 321, attacking: aim });
}

#[test]
fn the_new_idle_time_is_in_range() {
    for _ in 0..200 {
        let aim = units(400, 500);
        let mut bread = Bread { pos: aim, ticks_until_charge: 0, attacking: aim };
        assert!(!bread.tick(units(0, 0)));
        assert_eq!(bread.pos, aim);
        assert!(bread.ticks_until_charge >= BREAD_IDLE_MIN);
        assert!(bread.ticks_until_charge <= BREAD_IDLE_MAX);
    }
}

#[test]
fn a_whole_cycle() {
    let player = units(640, 360);
    let mut bread = Bread::new(player);
    let start = bread.pos;
    let mut warnings = 0;
    for _ in 0..BREAD_IDLE_MIN {
        if bread.tick(player) {
            warnings += 1;
        }
        assert_eq!(bread.pos, start);
    }
    assert_eq!(warnings, 1);
    assert_eq!(bread.attacking, player);
    let mut ticks = 0;
    while !bread.is_idle() {
        let before = dist_sq(bread.pos, player);
        assert!(!bread.tick(units(0, 0)));
        assert!(dist_sq(bread.pos, player) <= before);
        ticks += 1;
        assert!(ticks < 1_000);
    }
    assert_eq!(bread.pos, player);
    assert!(bread.ticks_until_charge >= BREAD_IDLE_MIN);
    assert!(bread.ticks_until_charge <= BREAD_IDLE_MAX);
    assert!(ticks > 1);
    let _ = TOO_CLOSE;
}
