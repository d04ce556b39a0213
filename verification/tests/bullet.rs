use roll_and_dice::body::Body;
use roll_and_dice::bullet::{remove_strays, Bullet, BULLET_RADIUS, BULLET_RNG, BULLET_SPEED};
use roll_and_dice::geom::{Vec2, UNIT, WORLD_HEIGHT, WORLD_WIDTH};

fn v(x: i32, y: i32) -> Vec2 {
    Vec2 { x, y }
}

fn at(x: i32, y: i32) -> Bullet {
    Bullet { pos: v(x, y), dir: v(0, 0) }
}

#[test]
fn bullet_constants() {
    assert_eq!(BULLET_RNG, 60 * UNIT);
    assert_eq!(BULLET_RADIUS, 13 * UNIT);
    assert_eq!(BULLET_SPEED, 5 * UNIT);
}

#[test]
fn a_bullet_moves_by_its_displacement() {
    let mut bullet = Bullet { pos: v(100, 200), dir: v(30_000, -40_000) };
    bullet.tick();
    assert_eq!(bullet, Bullet { pos: v(30_100, -39_800), dir: v(30_000, -40_000) });
    bullet.tick();
    assert_eq!(bullet.pos, v(60_100, -79_800));
}

#[test]
fn a_bullet_may_fly_far_outside_the_world() {
    let mut bullet = Bullet { pos: v(i32::MAX - 5, i32::MIN + 5), dir: v(5, -5) };
    bullet.tick();
    assert_eq!(bullet.pos, v(i32::MAX, i32::MIN));
}

#[test]
fn body_of_a_bullet() {
    let bullet = Bullet { pos: v(7, 8), dir: v(1, 1) };
    assert_eq!(bullet.centre(), v(7, 8));
    assert_eq!(bullet.radius(), BULLET_RADIUS);
}

#[test]
fn the_border_of_the_world_is_inside() {
    assert!(at(0, 0).in_world());
    assert!(at(WORLD_WIDTH, WORLD_HEIGHT).in_world());
    assert!(at(0, WORLD_HEIGHT).in_world());
    assert!(!at(-1, 0).in_world());
    assert!(!at(0, -1).in_world());
    assert!(!at(WORLD_WIDTH + 1, 0).in_world());
    assert!(!at(0, WORLD_HEIGHT + 1).in_world());
    // Both coordinates count, each on its own.
    assert!(!at(5, -1).in_world());
    assert!(!at(-1, 5).in_world());
}

#[test]
fn strays_are_removed_in_order() {
    let mut bullets = vec![
        at(1, 1),
        at(-1, 1),
        at(2, 2),
        at(WORLD_WIDTH + 1, 5),
        at(3, WORLD_HEIGHT),
        at(3, WORLD_HEIGHT + 1),
    ];
    remove_strays(&mut bullets);
    assert_eq!(bullets, vec![at(1, 1), at(2, 2), at(3, WORLD_HEIGHT)]);
}

#[test]
fn removing_strays_from_nothing() {
    let mut bullets: Vec<Bullet> = Vec::new();
    remove_strays(&mut bullets);
    assert!(bullets.is_empty());
}
