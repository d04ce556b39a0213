//! Fixed-point plane geometry: points, distances, circle overlap and motion
//! of a point towards a target at a given speed.

use vstd::prelude::*;

verus! {

/// Number of coordinate steps in one world unit.
pub const UNIT: i32 = 10_000;

/// Width of the world rectangle (1280 world units).
pub const WORLD_WIDTH: i32 = 12_800_000;

/// Height of the world rectangle (720 world units).
pub const WORLD_HEIGHT: i32 = 7_200_000;

/// How far outside the world rectangle a moving entity may stray (10 world
/// units): no entity moves farther than this in one tick.
pub const ARENA_MARGIN: i32 = 100_000;

/// Largest coordinate magnitude for which the arithmetic of this module is
/// free of overflow.
pub const COORD_LIMIT: i32 = 500_000_000;

/// Largest speed, in coordinate steps per tick, that [`velocity_towards`]
/// accepts.
pub const SPEED_LIMIT: i32 = 1_000_000;

/// A point or a displacement in the plane, in coordinate steps.
#[derive(Clone, Copy, PartialEq, Eq, Structural, Debug)]
pub struct Vec2 {
    pub x: i32,
    pub y: i32,
}

impl Vec2 {
    /// Both coordinates lie within `COORD_LIMIT` of the origin.
    pub open spec fn bounded(self) -> bool {
        &&& -COORD_LIMIT <= self.x <= COORD_LIMIT
        &&& -COORD_LIMIT <= self.y <= COORD_LIMIT
    }

    /// The point lies in the closed world rectangle.
    pub open spec fn in_world(self) -> bool {
        &&& 0 <= self.x <= WORLD_WIDTH
        &&& 0 <= self.y <= WORLD_HEIGHT
    }

    /// The point lies in the world rectangle widened by `ARENA_MARGIN` on
    /// every side.
    pub open spec fn in_arena(self) -> bool {
        &&& -ARENA_MARGIN <= self.x <= WORLD_WIDTH + ARENA_MARGIN
        &&& -ARENA_MARGIN <= self.y <= WORLD_HEIGHT + ARENA_MARGIN
    }

    /// Neither component exceeds `limit` in magnitude.
    pub open spec fn within(self, limit: int) -> bool {
        &&& -limit <= self.x <= limit
        &&& -limit <= self.y <= limit
    }

    /// Both components are zero.
    pub open spec fn is_zero(self) -> bool {
        self.x == 0 && self.y == 0
    }

    /// Squared length, as a mathematical integer.
    pub open spec fn norm_sq(self) -> int {
        self.x * self.x + self.y * self.y
    }

    /// The point with the coordinates `x` and `y`.
    pub fn new(x: i32, y: i32) -> (v: Vec2)
        ensures
            v.x == x,
            v.y == y,
    {
        Vec2 { x, y }
    }

    /// The origin, or the displacement that moves nothing.
    pub fn zero() -> (v: Vec2)
        ensures
            v.x == 0,
            v.y == 0,
    {
        Vec2 { x: 0, y: 0 }
    }

    /// Component-wise sum.
    pub fn plus(self, d: Vec2) -> (v: Vec2)
        requires
            i32::MIN <= self.x + d.x <= i32::MAX,
            i32::MIN <= self.y + d.y <= i32::MAX,
        ensures
            v == spec_plus(self, d),
    {
        Vec2 { x: self.x + d.x, y: self.y + d.y }
    }

    /// The displacement stretched by a whole factor.
    pub fn times(self, k: i32) -> (v: Vec2)
        requires
            i32::MIN <= self.x * k <= i32::MAX,
            i32::MIN <= self.y * k <= i32::MAX,
        ensures
            v == spec_times(self, k),
    {
        Vec2 { x: self.x * k, y: self.y * k }
    }
}

/// The point `p` moved by the displacement `d`.
pub open spec fn spec_plus(p: Vec2, d: Vec2) -> Vec2 {
    Vec2 { x: (p.x + d.x) as i32, y: (p.y + d.y) as i32 }
}

/// The displacement `d` stretched by the whole factor `k`.
pub open spec fn spec_times(d: Vec2, k: i32) -> Vec2 {
    Vec2 { x: (d.x * k) as i32, y: (d.y * k) as i32 }
}

/// Squared distance between two points, as a mathematical integer.
pub open spec fn spec_dist_sq(a: Vec2, b: Vec2) -> int {
    (a.x - b.x) * (a.x - b.x) + (a.y - b.y) * (a.y - b.y)
}

/// Squared distance between two points.
pub fn dist_sq(a: Vec2, b: Vec2) -> (d: i64)
    requires
        a.bounded(),
        b.bounded(),
    ensures
        d == spec_dist_sq(a, b),
        0 <= d <= 2_000_000_000_000_000_000,
{
    let dx: i64 = a.x as i64 - b.x as i64;
    let dy: i64 = a.y as i64 - b.y as i64;
    assert(0 <= dx * dx <= 1_000_000_000_000_000_000) by (nonlinear_arith)
        requires
            -1_000_000_000 <= dx <= 1_000_000_000,
    ;
    assert(0 <= dy * dy <= 1_000_000_000_000_000_000) by (nonlinear_arith)
        requires
            -1_000_000_000 <= dy <= 1_000_000_000,
    ;
    dx * dx + dy * dy
}

/// Whether two closed discs, centred at `a` and `b` with radii `ra` and `rb`,
/// touch or overlap: the squared distance of the centres is at most the
/// square of the summed radii. Discs that touch in a single point overlap.
pub open spec fn spec_overlaps(a: Vec2, ra: int, b: Vec2, rb: int) -> bool {
    spec_dist_sq(a, b) <= (ra + rb) * (ra + rb)
}

/// Circle-overlap test on squared distances, without a square root.
pub fn overlaps(a: Vec2, ra: i32, b: Vec2, rb: i32) -> (hit: bool)
    requires
        a.bounded(),
        b.bounded(),
        0 <= ra <= COORD_LIMIT,
        0 <= rb <= COORD_LIMIT,
    ensures
        hit == spec_overlaps(a, ra as int, b, rb as int),
{
    let reach: i64 = ra as i64 + rb as i64;
    assert(0 <= reach * reach <= 1_000_000_000_000_000_000) by (nonlinear_arith)
        requires
            0 <= reach <= 1_000_000_000,
    ;
    dist_sq(a, b) <= reach * reach
}

/// The overlap test does not care which disc is named first.
pub proof fn lemma_overlap_symmetric(a: Vec2, ra: int, b: Vec2, rb: int)
    ensures
        spec_overlaps(a, ra, b, rb) == spec_overlaps(b, rb, a, ra),
{
    assert(spec_dist_sq(a, b) == spec_dist_sq(b, a)) by (nonlinear_arith);
    assert((ra + rb) * (ra + rb) == (rb + ra) * (rb + ra)) by (nonlinear_arith);
}

/// The boundary counts: two discs whose centres are exactly the sum of their
/// radii apart overlap, and one coordinate step farther apart along an axis
/// they do not.
pub proof fn lemma_overlap_boundary(a: Vec2, ra: int, b: Vec2, rb: int)
    requires
        0 <= ra,
        0 <= rb,
    ensures
        spec_dist_sq(a, b) == (ra + rb) * (ra + rb) ==> spec_overlaps(a, ra, b, rb),
        a.y == b.y && b.x - a.x == ra + rb ==> spec_overlaps(a, ra, b, rb),
        a.y == b.y && b.x - a.x == ra + rb + 1 ==> !spec_overlaps(a, ra, b, rb),
{
    let r = ra + rb;
    let dx = a.x - b.x;
    let dy = a.y - b.y;
    assert(dy == 0 ==> dx * dx + dy * dy == dx * dx) by (nonlinear_arith);
    assert(dx == -r ==> dx * dx == r * r) by (nonlinear_arith);
    assert(dx == -(r + 1) && 0 <= r ==> dx * dx > r * r) by (nonlinear_arith);
}

/// The point moved into the world rectangle, each coordinate on its own.
pub open spec fn spec_clamp_to_world(p: Vec2) -> Vec2 {
    Vec2 {
        x: if p.x < 0 { 0 } else if p.x > WORLD_WIDTH { WORLD_WIDTH } else { p.x },
        y: if p.y < 0 { 0 } else if p.y > WORLD_HEIGHT { WORLD_HEIGHT } else { p.y },
    }
}

/// Hard clamp of a position into the world rectangle: no bounce, no wrap.
pub fn ensure_in_bounds(pos: &mut Vec2)
    ensures
        *final(pos) == spec_clamp_to_world(*old(pos)),
        final(pos).in_world(),
        old(pos).in_world() ==> *final(pos) == *old(pos),
{
    if pos.x < 0 {
        pos.x = 0;
    } else if pos.x > WORLD_WIDTH {
        pos.x = WORLD_WIDTH;
    }
    if pos.y < 0 {
        pos.y = 0;
    } else if pos.y > WORLD_HEIGHT {
        pos.y = WORLD_HEIGHT;
    }
}

/// `r` is the whole part of the square root of `n`.
pub open spec fn is_isqrt(n: int, r: int) -> bool {
    0 <= r && r * r <= n < (r + 1) * (r + 1)
}

/// The whole part of the square root of `n` (for `n >= 0`).
pub open spec fn isqrt(n: int) -> int {
    choose|r: int| is_isqrt(n, r)
}

/// A number has at most one whole square root, so any `r` that fits is it.
pub proof fn lemma_isqrt_unique(n: int, r: int)
    requires
        is_isqrt(n, r),
    ensures
        isqrt(n) == r,
{
    let s = isqrt(n);
    assert(is_isqrt(n, s));
    assert(s == r) by (nonlinear_arith)
        requires
            0 <= r,
            r * r <= n < (r + 1) * (r + 1),
            0 <= s,
            s * s <= n < (s + 1) * (s + 1),
    ;
}

/// Whole part of the square root, by bisection.
pub fn int_sqrt(n: i64) -> (r: i64)
    requires
        0 <= n <= 2_000_000_000_000_000_000,
    ensures
        r == isqrt(n as int),
        is_isqrt(n as int, r as int),
        r <= 1_500_000_000,
{
    let mut lo: i64 = 0;
    let mut hi: i64 = 1_500_000_000;
    while hi - lo > 1
        invariant
            0 <= lo < hi <= 1_500_000_000,
            lo * lo <= n < hi * hi,
        decreases hi - lo,
    {
        let mid: i64 = lo + (hi - lo) / 2;
        assert(0 <= mid * mid <= 2_250_000_000_000_000_000) by (nonlinear_arith)
            requires
                0 <= mid <= 1_500_000_000,
        ;
        if mid * mid <= n {
            lo = mid;
        } else {
            hi = mid;
        }
    }
    proof {
        assert(hi == lo + 1);
        lemma_isqrt_unique(n as int, lo as int);
    }
    lo
}

/// One component `c` of a displacement of length `len`, rescaled to length
/// `speed`: `c * speed / len`, rounded towards zero.
pub open spec fn spec_scale(c: int, speed: int, len: int) -> int {
    if c >= 0 {
        (c * speed) / len
    } else {
        -(((-c) * speed) / len)
    }
}

/// The displacement of one tick for something at `from` that heads for `to`
/// at `speed`: the displacement from `from` to `to`, rescaled to length
/// `speed`. The length that it is rescaled from is the whole part of the true
/// length, and each component is rounded towards zero. Where the two points
/// coincide there is no direction to take, and the displacement is zero.
pub open spec fn spec_velocity(from: Vec2, to: Vec2, speed: int) -> Vec2 {
    let dx = to.x - from.x;
    let dy = to.y - from.y;
    let len = isqrt(dx * dx + dy * dy);
    if len == 0 {
        Vec2 { x: 0, y: 0 }
    } else {
        Vec2 { x: spec_scale(dx, speed, len) as i32, y: spec_scale(dy, speed, len) as i32 }
    }
}

/// Where something at `from` stands after one tick towards `to` at `speed`.
pub open spec fn spec_step(from: Vec2, to: Vec2, speed: int) -> Vec2 {
    spec_plus(from, spec_velocity(from, to, speed))
}

/// A rescaled component keeps its sign and is at most `speed` long, provided
/// the component itself is at most `len` long.
pub proof fn lemma_scale_bounds(c: int, speed: int, len: int)
    requires
        0 < len,
        0 <= speed,
        -len <= c <= len,
    ensures
        c >= 0 ==> 0 <= spec_scale(c, speed, len) <= speed,
        c <= 0 ==> -speed <= spec_scale(c, speed, len) <= 0,
        c == 0 ==> spec_scale(c, speed, len) == 0,
{
    let a = if c >= 0 { c } else { -c };
    assert(0 <= (a * speed) / len <= speed) by (nonlinear_arith)
        requires
            0 < len,
            0 <= speed,
            0 <= a <= len,
    ;
    assert(a == 0 ==> (a * speed) / len == 0) by (nonlinear_arith)
        requires
            0 < len,
    ;
}

/// Each component of a displacement is at most as long as the whole part of
/// the displacement's length.
pub proof fn lemma_component_le_len(dx: int, dy: int)
    ensures
        -isqrt(dx * dx + dy * dy) <= dx <= isqrt(dx * dx + dy * dy),
        -isqrt(dx * dx + dy * dy) <= dy <= isqrt(dx * dx + dy * dy),
        isqrt(dx * dx + dy * dy) == 0 <==> (dx == 0 && dy == 0),
{
    let n = dx * dx + dy * dy;
    assert(0 <= n) by (nonlinear_arith)
        requires
            n == dx * dx + dy * dy,
    ;
    lemma_isqrt_exists(n);
    let r = isqrt(n);
    assert(is_isqrt(n, r));
    assert(-r <= dx <= r && -r <= dy <= r && (r == 0 <==> (dx == 0 && dy == 0)))
        by (nonlinear_arith)
        requires
            n == dx * dx + dy * dy,
            0 <= r,
            r * r <= n < (r + 1) * (r + 1),
    ;
}

/// Every number from zero up has a whole square root.
pub proof fn lemma_isqrt_exists(n: int)
    requires
        0 <= n,
    ensures
        is_isqrt(n, isqrt(n)),
    decreases n,
{
    if n == 0 {
        assert(is_isqrt(0, 0));
    } else {
        lemma_isqrt_exists(n - 1);
        let r = isqrt(n - 1);
        if (r + 1) * (r + 1) <= n {
            assert(is_isqrt(n, r + 1)) by (nonlinear_arith)
                requires
                    0 <= r,
                    r * r <= n - 1 < (r + 1) * (r + 1),
                    (r + 1) * (r + 1) <= n,
            ;
        } else {
            assert(is_isqrt(n, r));
        }
    }
}

/// The velocity towards a target never exceeds `speed` in either component
/// and points, in each component, from `from` to `to`.
pub proof fn lemma_velocity_bounds(from: Vec2, to: Vec2, speed: int)
    requires
        from.bounded(),
        to.bounded(),
        0 <= speed <= SPEED_LIMIT,
    ensures
        spec_velocity(from, to, speed).within(speed),
        to.x >= from.x ==> spec_velocity(from, to, speed).x >= 0,
        to.x <= from.x ==> spec_velocity(from, to, speed).x <= 0,
        to.y >= from.y ==> spec_velocity(from, to, speed).y >= 0,
        to.y <= from.y ==> spec_velocity(from, to, speed).y <= 0,
        from == to ==> spec_velocity(from, to, speed).is_zero(),
{
    let dx = to.x - from.x;
    let dy = to.y - from.y;
    lemma_component_le_len(dx, dy);
    let len = isqrt(dx * dx + dy * dy);
    if len != 0 {
        lemma_scale_bounds(dx, speed, len);
        lemma_scale_bounds(dy, speed, len);
    }
}

/// A step towards a point of the world, at a speed within the arena's margin,
/// keeps a point of the arena inside the arena.
pub proof fn lemma_step_stays_in_arena(from: Vec2, to: Vec2, speed: int)
    requires
        from.in_arena(),
        to.in_world(),
        0 <= speed <= ARENA_MARGIN,
    ensures
        spec_step(from, to, speed).in_arena(),
        spec_step(from, to, speed).x == from.x + spec_velocity(from, to, speed).x,
        spec_step(from, to, speed).y == from.y + spec_velocity(from, to, speed).y,
{
    lemma_velocity_bounds(from, to, speed);
}

/// The displacement of one tick from `from` towards `to` at `speed`.
pub fn velocity_towards(from: Vec2, to: Vec2, speed: i32) -> (v: Vec2)
    requires
        from.bounded(),
        to.bounded(),
        0 <= speed <= SPEED_LIMIT,
    ensures
        v == spec_velocity(from, to, speed as int),
        v.within(speed as int),
{
    let dx: i64 = to.x as i64 - from.x as i64;
    let dy: i64 = to.y as i64 - from.y as i64;
    let len: i64 = int_sqrt(dist_sq(to, from));
    proof {
        lemma_component_le_len(dx as int, dy as int);
        lemma_velocity_bounds(from, to, speed as int);
    }
    if len == 0 {
        Vec2 { x: 0, y: 0 }
    } else {
        Vec2 { x: scale(dx, speed, len), y: scale(dy, speed, len) }
    }
}

/// One component of a displacement rescaled from length `len` to `speed`.
fn scale(c: i64, speed: i32, len: i64) -> (s: i32)
    requires
        0 < len <= 1_500_000_000,
        0 <= speed <= SPEED_LIMIT,
        -len <= c <= len,
    ensures
        s == spec_scale(c as int, speed as int, len as int),
{
    proof {
        lemma_scale_bounds(c as int, speed as int, len as int);
    }
    let a: i64 = if c >= 0 { c } else { -c };
    assert(0 <= a * speed <= 1_500_000_000_000_000) by (nonlinear_arith)
        requires
            0 <= a <= 1_500_000_000,
            0 <= speed <= 1_000_000,
    ;
    let q: i64 = a * (speed as i64) / len;
    if c >= 0 {
        q as i32
    } else {
        (-q) as i32
    }
}

/// Where something at `from` stands after one tick towards `to` at `speed`.
pub fn step_towards(from: Vec2, to: Vec2, speed: i32) -> (p: Vec2)
    requires
        from.bounded(),
        to.bounded(),
        0 <= speed <= SPEED_LIMIT,
    ensures
        p == spec_step(from, to, speed as int),
        p.x == from.x + spec_velocity(from, to, speed as int).x,
        p.y == from.y + spec_velocity(from, to, speed as int).y,
{
    let v: Vec2 = velocity_towards(from, to, speed);
    from.plus(v)
}

} // verus!
