use roll_and_dice::geom::{
    dist_sq, ensure_in_bounds, int_sqrt, overlaps, step_towards, velocity_towards, Vec2,
    ARENA_MARGIN, COORD_LIMIT, SPEED_LIMIT, UNIT, WORLD_HEIGHT, WORLD_WIDTH,
};

fn v(x: i32, y: i32) -> Vec2 {
    Vec2 { x, y }
}

#[test]
fn world_is_1280_by_720_units() {
    assert_eq!(UNIT, 10_000);
    assert_eq!(WORLD_WIDTH, 1280 * UNIT);
    assert_eq!(WORLD_HEIGHT, 720 * UNIT);
    assert_eq!(ARENA_MARGIN, 10 * UNIT);
}

#[test]
fn constructors() {
    assert_eq!(Vec2::new(3, -4), v(3, -4));
    assert_eq!(Vec2::zero(), v(0, 0));
}

#[test]
fn plus_and_times() {
    assert_eq!(v(1, 2).plus(v(10, -20)), v(11, -18));
    assert_eq!(v(7_071, -7_071).times(2), v(14_142, -14_142));
    assert_eq!(v(10_000, 0).times(35), v(350_000, 0));
    assert_eq!(v(5, 6).times(0), v(0, 0));
}

#[test]
fn squared_distance() {
    assert_eq!(dist_sq(v(0, 0), v(3, 4)), 25);
    assert_eq!(dist_sq(v(3, 4), v(0, 0)), 25);
    assert_eq!(dist_sq(v(-1, -1), v(-1, -1)), 0);
    assert_eq!(dist_sq(v(-COORD_LIMIT, -COORD_LIMIT), v(COORD_LIMIT, COORD_LIMIT)), 2_000_000_000_000_000_000);
}

#[test]
fn discs_that_touch_in_one_point_overlap() {
    // Centres 500 apart, radii 200 and 300: exactly on the boundary.
    assert!(overlaps(v(0, 0), 200, v(300, 400), 300));
    assert!(overlaps(v(300, 400), 300, v(0, 0), 200));
    // One step less reach, or one step farther away: clear of each other.
    assert!(!overlaps(v(0, 0), 200, v(300, 400), 299));
    assert!(!overlaps(v(0, 0), 200, v(300, 401), 300));
    assert!(!overlaps(v(0, 0), 200, v(501, 0), 300));
    assert!(overlaps(v(0, 0), 200, v(500, 0), 300));
    assert!(overlaps(v(0, 0), 200, v(499, 0), 300));
}

#[test]
fn overlap_with_zero_radii_is_coincidence() {
    assert!(overlaps(v(5, 5), 0, v(5, 5), 0));
    assert!(!overlaps(v(5, 5), 0, v(5, 6), 0));
}

#[test]
fn clamp_into_the_world() {
    let mut p = v(-1, -1);
    ensure_in_bounds(&mut p);
    assert_eq!(p, v(0, 0));

    let mut p = v(WORLD_WIDTH + 1, WORLD_HEIGHT + 1);
    ensure_in_bounds(&mut p);
    assert_eq!(p, v(WORLD_WIDTH, WORLD_HEIGHT));

    let mut p = v(i32::MIN, i32::MAX);
    ensure_in_bounds(&mut p);
    assert_eq!(p, v(0, WORLD_HEIGHT));

    let mut p = v(123, WORLD_HEIGHT);
    ensure_in_bounds(&mut p);
    assert_eq!(p, v(123, WORLD_HEIGHT));

    let mut p = v(0, 0);
    ensure_in_bounds(&mut p);
    assert_eq!(p, v(0, 0));
}

#[test]
fn whole_square_roots() {
    assert_eq!(int_sqrt(0), 0);
    assert_eq!(int_sqrt(1), 1);
    assert_eq!(int_sqrt(2), 1);
    assert_eq!(int_sqrt(3), 1);
    assert_eq!(int_sqrt(4), 2);
    assert_eq!(int_sqrt(24), 4);
    assert_eq!(int_sqrt(25), 5);
    assert_eq!(int_sqrt(26), 5);
    assert_eq!(int_sqrt(99_999_999), 9_999);
    assert_eq!(int_sqrt(100_000_000), 10_000);
    assert_eq!(int_sqrt(2_000_000_000_000_000_000), 1_414_213_562);
}

#[test]
fn whole_square_roots_bracket_their_argument() {
    for n in (0..200_000i64).chain([4_611_686_018_427_387i64, 1_999_999_999_999_999_999]) {
        let r = int_sqrt(n);
        assert!(r * r <= n);
        assert!((r + 1) * (r + 1) > n);
    }
}

#[test]
fn velocity_along_a_3_4_5_triangle() {
    // 30 and 40 units away: 50 units in all. At 1.8 units per tick the
    // step is 1.08 and 1.44 units.
    assert_eq!(velocity_towards(v(0, 0), v(300_000, 400_000), 18_000), v(10_800, 14_400));
    assert_eq!(velocity_towards(v(300_000, 400_000), v(0, 0), 18_000), v(-10_800, -14_400));
    assert_eq!(velocity_towards(v(100, 100), v(100 - 400_000, 100 + 300_000), 5_000), v(-4_000, 3_000));
}

#[test]
fn velocity_along_an_axis_is_the_speed() {
    assert_eq!(velocity_towards(v(0, 0), v(1_000_000, 0), 50_000), v(50_000, 0));
    assert_eq!(velocity_towards(v(0, 0), v(0, -7), 80_000), v(0, -80_000));
}

#[test]
fn velocity_rounds_towards_zero() {
    // Length is the whole root of 5, which is 2.
    assert_eq!(velocity_towards(v(0, 0), v(1, 2), 1), v(0, 1));
    assert_eq!(velocity_towards(v(0, 0), v(-1, -2), 1), v(0, -1));
    assert_eq!(velocity_towards(v(0, 0), v(-1, 2), 3), v(-1, 3));
}

#[test]
fn velocity_between_equal_points_is_zero() {
    assert_eq!(velocity_towards(v(77, -5), v(77, -5), 18_000), v(0, 0));
    assert_eq!(velocity_towards(v(0, 0), v(10, 10), 0), v(0, 0));
}

#[test]
fn velocity_never_exceeds_the_speed() {
    for (x, y) in [(1, 1), (1, 0), (3, 1), (-2, 7), (1_000, -999), (12_800_000, 7_200_000)] {
        for speed in [1, 5_000, 18_000, 50_000, 80_000, SPEED_LIMIT] {
            let d = velocity_towards(v(0, 0), v(x, y), speed);
            assert!(d.x.abs() <= speed && d.y.abs() <= speed);
            assert!(d.x.signum() == 0 || d.x.signum() == x.signum());
            assert!(d.y.signum() == 0 || d.y.signum() == y.signum());
            let len_sq = d.x as i64 * d.x as i64 + d.y as i64 * d.y as i64;
            // A step is as long as it may be, give or take the rounding.
            assert!(len_sq <= 2 * speed as i64 * speed as i64);
        }
    }
}

#[test]
fn a_step_adds_the_velocity() {
    assert_eq!(step_towards(v(1_000_000, 1_000_000), v(1_300_000, 1_400_000), 18_000), v(1_010_800, 1_014_400));
    assert_eq!(step_towards(v(5, 5), v(5, 5), 18_000), v(5, 5));
    // A target closer than one step is overshot.
    assert_eq!(step_towards(v(0, 0), v(10, 0), 5_000), v(5_000, 0));
}
