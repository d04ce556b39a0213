//! The random draws of the simulation, and the spawn-placement rule built on
//! them.
//!
//! Every draw comes from the process-wide generator of `macroquad::rand`.
//! Ranges are closed: a draw between `low` and `high` lies between the two,
//! ends included, and nothing more is promised of it.

use vstd::prelude::*;
use crate::geom::{dist_sq, spec_dist_sq, Vec2, WORLD_HEIGHT, WORLD_WIDTH};

verus! {

/// Nothing spawns within this distance of the position to avoid (250 world
/// units).
pub const TOO_CLOSE: i32 = 2_500_000;

/// How many random points the spawn placement tries before it settles for the
/// farthest one it has seen.
pub const SPAWN_TRIES: usize = 64;

/// Calls `macroquad::rand::gen_range` on two `i32` bounds.
///
/// Not proved: that the draw lies between the bounds, both included, when
/// they are in order. The generator computes `low + (high - low) * r` in
/// double precision with `0 <= r < 1` and cuts the fraction off; every `i32` is
/// exact in double precision, so neither rounding nor cutting leaves the
/// interval. Which number of the interval comes out is not specified.
#[verifier::external_body]
pub(crate) fn gen_range(low: i32, high: i32) -> (r: i32)
    ensures
        low <= high ==> low <= r <= high,
{
    macroquad::rand::gen_range(low, high)
}

/// A random point of the world rectangle.
pub fn rand_point() -> (p: Vec2)
    ensures
        p.in_world(),
{
    let x: i32 = gen_range(0, WORLD_WIDTH);
    let y: i32 = gen_range(0, WORLD_HEIGHT);
    Vec2 { x, y }
}

/// `p` is farther than `TOO_CLOSE` from `avoid`.
pub open spec fn far_enough(p: Vec2, avoid: Vec2) -> bool {
    spec_dist_sq(p, avoid) > TOO_CLOSE * TOO_CLOSE
}

/// Executable form of [`far_enough`].
pub fn is_far_enough(p: Vec2, avoid: Vec2) -> (far: bool)
    requires
        p.bounded(),
        avoid.bounded(),
    ensures
        far == far_enough(p, avoid),
{
    let limit: i64 = TOO_CLOSE as i64;
    assert(limit * limit == 6_250_000_000_000) by (nonlinear_arith)
        requires
            limit == 2_500_000,
    ;
    dist_sq(p, avoid) > limit * limit
}

/// Of two candidates the one farther from `avoid`; the first on a tie.
pub open spec fn spec_farther_of(best: Vec2, cand: Vec2, avoid: Vec2) -> Vec2 {
    if spec_dist_sq(cand, avoid) > spec_dist_sq(best, avoid) {
        cand
    } else {
        best
    }
}

/// Of two candidates the one farther from `avoid`; the first on a tie.
pub fn farther_of(best: Vec2, cand: Vec2, avoid: Vec2) -> (p: Vec2)
    requires
        best.bounded(),
        cand.bounded(),
        avoid.bounded(),
    ensures
        p == spec_farther_of(best, cand, avoid),
{
    if dist_sq(cand, avoid) > dist_sq(best, avoid) {
        cand
    } else {
        best
    }
}

/// The candidate farthest from `avoid` among `tried`, the earliest on a tie.
pub open spec fn farthest_of(tried: Seq<Vec2>, avoid: Vec2) -> Vec2
    decreases tried.len(),
{
    if tried.len() <= 1 {
        tried[0]
    } else {
        spec_farther_of(farthest_of(tried.drop_last(), avoid), tried.last(), avoid)
    }
}

/// `tried` is a run of the spawn search: up to `SPAWN_TRIES` points of the
/// world, none but the last far enough from `avoid`, and the search only gave
/// up on the last try.
pub open spec fn is_spawn_search(tried: Seq<Vec2>, avoid: Vec2) -> bool {
    &&& 1 <= tried.len() <= SPAWN_TRIES
    &&& forall|i: int| 0 <= i < tried.len() ==> (#[trigger] tried[i]).in_world()
    &&& forall|i: int| 0 <= i < tried.len() - 1 ==> !far_enough(#[trigger] tried[i], avoid)
    &&& (far_enough(tried.last(), avoid) || tried.len() == SPAWN_TRIES)
}

/// `p` can come out of the spawn placement for `avoid`: it is the farthest
/// point of some run of the spawn search.
pub open spec fn is_spawn_pos(p: Vec2, avoid: Vec2) -> bool {
    &&& p.in_world()
    &&& exists|tried: Seq<Vec2>| #[trigger]
        is_spawn_search(tried, avoid) && p == farthest_of(tried, avoid)
}

/// A random spawn position that keeps away from `avoid_pos`.
///
/// Random points of the world are drawn until one is farther than `TOO_CLOSE`
/// from `avoid_pos`; that point is the result. After `SPAWN_TRIES` points
/// without success the result is the farthest point drawn.
pub fn rand_spawn_pos(avoid_pos: Vec2) -> (p: Vec2)
    requires
        avoid_pos.bounded(),
    ensures
        is_spawn_pos(p, avoid_pos),
{
    let mut best: Vec2 = rand_point();
    let mut tries: usize = 1;
    let ghost mut tried: Seq<Vec2> = seq![best];
    while tries < SPAWN_TRIES && !is_far_enough(best, avoid_pos)
        invariant
            avoid_pos.bounded(),
            1 <= tries <= SPAWN_TRIES,
            tried.len() == tries,
            best.in_world(),
            best == farthest_of(tried, avoid_pos),
            forall|i: int| 0 <= i < tried.len() ==> (#[trigger] tried[i]).in_world(),
            forall|i: int| 0 <= i < tried.len() - 1 ==> !far_enough(#[trigger] tried[i], avoid_pos),
        decreases SPAWN_TRIES - tries,
    {
        let cand: Vec2 = rand_point();
        proof {
            let next = tried.push(cand);
            assert(next.drop_last() =~= tried);
            assert(!far_enough(tried.last(), avoid_pos)) by {
                lemma_farthest_far_enough(tried, avoid_pos);
            }
            tried = next;
        }
        best = farther_of(best, cand, avoid_pos);
        tries = tries + 1;
    }
    proof {
        lemma_farthest_far_enough(tried, avoid_pos);
        assert(is_spawn_search(tried, avoid_pos));
    }
    best
}

/// The farthest of a run of candidates is one of them, and, where it is not
/// far enough from `avoid`, none of them is.
pub proof fn lemma_farthest_far_enough(tried: Seq<Vec2>, avoid: Vec2)
    requires
        tried.len() >= 1,
    ensures
        exists|j: int| 0 <= j < tried.len() && farthest_of(tried, avoid) == tried[j],
        forall|i: int|
            0 <= i < tried.len() ==> spec_dist_sq(#[trigger] tried[i], avoid) <= spec_dist_sq(
                farthest_of(tried, avoid),
                avoid,
            ),
        !far_enough(farthest_of(tried, avoid), avoid) ==> forall|i: int|
            0 <= i < tried.len() ==> !far_enough(#[trigger] tried[i], avoid),
    decreases tried.len(),
{
    if tried.len() > 1 {
        let init = tried.drop_last();
        lemma_farthest_far_enough(init, avoid);
        let j = choose|j: int| 0 <= j < init.len() && farthest_of(init, avoid) == init[j];
        assert(init[j] == tried[j]);
        if farthest_of(tried, avoid) == tried.last() {
            assert(farthest_of(tried, avoid) == tried[tried.len() - 1]);
        } else {
            assert(farthest_of(tried, avoid) == tried[j]);
        }
        assert forall|i: int| 0 <= i < tried.len() implies spec_dist_sq(
            #[trigger] tried[i],
            avoid,
        ) <= spec_dist_sq(farthest_of(tried, avoid), avoid) by {
            if i < tried.len() - 1 {
                assert(tried[i] == init[i]);
            }
        }
    } else {
        assert(farthest_of(tried, avoid) == tried[0]);
    }
}

} // verus!
