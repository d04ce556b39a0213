use roll_and_dice::geom::{dist_sq, Vec2, UNIT, WORLD_HEIGHT, WORLD_WIDTH};
use roll_and_dice::random::{
    farther_of, is_far_enough, rand_point, rand_spawn_pos, SPAWN_TRIES, TOO_CLOSE,
};

fn v(x: i32, y: i32) -> Vec2 {
    Vec2 { x, y }
}

fn in_world(p: Vec2) -> bool {
    0 <= p.x && p.x <= WORLD_WIDTH && 0 <= p.y && p.y <= WORLD_HEIGHT
}

#[test]
fn spawn_constants() {
    assert_eq!(TOO_CLOSE, 250 * UNIT);
    assert_eq!(SPAWN_TRIES, 64);
}

#[test]
fn random_points_are_in_the_world() {
    for _ in 0..2_000 {
        assert!(in_world(rand_point()));
    }
}

#[test]
fn random_points_vary() {
    let first = rand_point();
    let mut x_varied = false;
    let mut y_varied = false;
    for _ in 0..200 {
        let p = rand_point();
        x_varied |= p.x != first.x;
        y_varied |= p.y != first.y;
    }
    assert!(x_varied && y_varied);
}

#[test]
fn far_enough_is_strict() {
    let avoid = v(1_000_000, 1_000_000);
    assert!(!is_far_enough(avoid, avoid));
    assert!(!is_far_enough(v(avoid.x + TOO_CLOSE, avoid.y), avoid));
    assert!(is_far_enough(v(avoid.x + TOO_CLOSE + 1, avoid.y), avoid));
    assert!(!is_far_enough(v(avoid.x, avoid.y - TOO_CLOSE), avoid));
    assert!(is_far_enough(v(avoid.x, avoid.y - TOO_CLOSE - 1), avoid));
    // 150 and 200 units away: 250 in all.
    assert!(!is_far_enough(v(avoid.x + 150 * UNIT, avoid.y + 200 * UNIT), avoid));
    assert!(is_far_enough(v(avoid.x + 150 * UNIT, avoid.y + 200 * UNIT + 1), avoid));
}

#[test]
fn the_farther_candidate_wins_and_ties_go_to_the_first() {
    let avoid = v(0, 0);
    assert_eq!(farther_of(v(3, 4), v(6, 8), avoid), v(6, 8));
    assert_eq!(farther_of(v(6, 8), v(3, 4), avoid), v(6, 8));
    assert_eq!(farther_of(v(3, 4), v(4, 3), avoid), v(3, 4));
    assert_eq!(farther_of(v(4, 3), v(3, 4), avoid), v(4, 3));
}

#[test]
fn spawn_positions_are_in_the_world() {
    for avoid in [v(6_400_000, 3_600_000), v(0, 0), v(WORLD_WIDTH, WORLD_HEIGHT), v(-5_000_000, 90_000_000)] {
        for _ in 0..300 {
            assert!(in_world(rand_spawn_pos(avoid)));
        }
    }
}

#[test]
fn spawn_positions_keep_away_when_most_of_the_world_is_free() {
    // The disc to avoid covers a fifth of the world at most, so that sixty-four
    // tries in a row inside it do not happen.
    let avoid = v(6_400_000, 3_600_000);
    for _ in 0..300 {
        let p = rand_spawn_pos(avoid);
        assert!(dist_sq(p, avoid) > TOO_CLOSE as i64 * TOO_CLOSE as i64);
    }
}
