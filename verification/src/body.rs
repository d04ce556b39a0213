//! What the collision pass sees of an entity: a disc in the plane.

use vstd::prelude::*;
use crate::geom::{overlaps, spec_overlaps, Vec2};

verus! {

/// Largest radius of any body (100 world units).
pub const RADIUS_LIMIT: i32 = 1_000_000;

/// An entity with a circular body.
pub trait Body: Copy {
    /// Centre of the body.
    spec fn body_pos(&self) -> Vec2;

    /// Radius of the body.
    spec fn body_radius(&self) -> int;

    /// Centre of the body.
    fn centre(&self) -> (p: Vec2)
        ensures
            p == self.body_pos(),
    ;

    /// Radius of the body.
    fn radius(&self) -> (r: i32)
        ensures
            r == self.body_radius(),
            0 <= r <= RADIUS_LIMIT,
    ;
}

/// The body `b` touches or overlaps the disc of radius `radius` at `centre`.
pub open spec fn spec_touches<T: Body>(b: T, centre: Vec2, radius: int) -> bool {
    spec_overlaps(b.body_pos(), b.body_radius(), centre, radius)
}

/// Executable form of [`spec_touches`].
pub fn touches<T: Body>(b: &T, centre: Vec2, radius: i32) -> (hit: bool)
    requires
        b.body_pos().bounded(),
        centre.bounded(),
        0 <= radius <= RADIUS_LIMIT,
    ensures
        hit == spec_touches(*b, centre, radius as int),
{
    overlaps(b.centre(), b.radius(), centre, radius)
}

/// The bodies of `items` that stay clear of the disc, in their order.
pub open spec fn survivors<T: Body>(items: Seq<T>, centre: Vec2, radius: int) -> Seq<T> {
    items.filter(clear_of(centre, radius))
}

/// The test for staying clear of the disc, as a predicate on bodies.
pub open spec fn clear_of<T: Body>(centre: Vec2, radius: int) -> spec_fn(T) -> bool {
    |b: T| !spec_touches(b, centre, radius)
}

/// Some body of `items` touches the disc.
pub open spec fn any_touches<T: Body>(items: Seq<T>, centre: Vec2, radius: int) -> bool {
    exists|i: int| 0 <= i < items.len() && spec_touches(#[trigger] items[i], centre, radius)
}

/// Removes every body that touches the disc and keeps the others in their
/// order. Returns whether anything was removed.
pub fn remove_touching<T: Body>(items: &mut Vec<T>, centre: Vec2, radius: i32) -> (removed: bool)
    requires
        forall|i: int| 0 <= i < old(items).len() ==> (#[trigger] old(items)[i]).body_pos().bounded(),
        centre.bounded(),
        0 <= radius <= RADIUS_LIMIT,
    ensures
        final(items)@ == survivors(old(items)@, centre, radius as int),
        removed == any_touches(old(items)@, centre, radius as int),
        removed == (final(items).len() < old(items).len()),
{
    let mut kept: Vec<T> = Vec::with_capacity(items.len());
    let mut i: usize = 0;
    let mut removed: bool = false;
    while i < items.len()
        invariant
            0 <= i <= items.len(),
            *items == *old(items),
            forall|j: int| 0 <= j < items.len() ==> (#[trigger] items[j]).body_pos().bounded(),
            centre.bounded(),
            0 <= radius <= RADIUS_LIMIT,
            kept@ == survivors(items@.take(i as int), centre, radius as int),
            removed == any_touches(items@.take(i as int), centre, radius as int),
            removed == (kept.len() < i),
            kept.len() <= i,
        decreases items.len() - i,
    {
        let b: T = items[i];
        let hit: bool = touches(&b, centre, radius);
        proof {
            let before = items@.take(i as int);
            let now = items@.take(i + 1);
            assert(now.drop_last() =~= before);
            assert(now.last() == b);
            reveal(Seq::filter);
            assert(survivors(now, centre, radius as int) == if hit {
                survivors(before, centre, radius as int)
            } else {
                survivors(before, centre, radius as int).push(b)
            });
            if any_touches(before, centre, radius as int) {
                let k = choose|k: int|
                    0 <= k < before.len() && spec_touches(#[trigger] before[k], centre, radius as int);
                assert(spec_touches(now[k], centre, radius as int));
            }
            if hit {
                assert(spec_touches(now[i as int], centre, radius as int));
            }
            if any_touches(now, centre, radius as int) && !hit {
                let k = choose|k: int|
                    0 <= k < now.len() && spec_touches(#[trigger] now[k], centre, radius as int);
                assert(k < i);
                assert(spec_touches(before[k], centre, radius as int));
            }
        }
        if hit {
            removed = true;
        } else {
            kept.push(b);
        }
        i = i + 1;
    }
    proof {
        assert(items@.take(items.len() as int) =~= items@);
    }
    *items = kept;
    removed
}

/// Whether some body of `items` touches the disc.
pub fn any_touching<T: Body>(items: &Vec<T>, centre: Vec2, radius: i32) -> (hit: bool)
    requires
        forall|i: int| 0 <= i < items.len() ==> (#[trigger] items[i]).body_pos().bounded(),
        centre.bounded(),
        0 <= radius <= RADIUS_LIMIT,
    ensures
        hit == any_touches(items@, centre, radius as int),
{
    let mut i: usize = 0;
    while i < items.len()
        invariant
            0 <= i <= items.len(),
            forall|j: int| 0 <= j < items.len() ==> (#[trigger] items[j]).body_pos().bounded(),
            centre.bounded(),
            0 <= radius <= RADIUS_LIMIT,
            forall|j: int| 0 <= j < i ==> !spec_touches(#[trigger] items[j], centre, radius as int),
        decreases items.len() - i,
    {
        if touches(&items[i], centre, radius) {
            return true;
        }
        i = i + 1;
    }
    false
}

/// What survives the removal is exactly what stayed clear of the disc: every
/// survivor is a body of `items` that does not touch it, every body of `items`
/// that does not touch it survives, and nothing is added.
pub proof fn lemma_survivors<T: Body>(items: Seq<T>, centre: Vec2, radius: int)
    ensures
        survivors(items, centre, radius).len() <= items.len(),
        forall|i: int|
            0 <= i < survivors(items, centre, radius).len() ==> {
                &&& items.contains(#[trigger] survivors(items, centre, radius)[i])
                &&& !spec_touches(survivors(items, centre, radius)[i], centre, radius)
            },
        forall|i: int|
            0 <= i < items.len() && !spec_touches(#[trigger] items[i], centre, radius)
                ==> survivors(items, centre, radius).contains(items[i]),
{
    let pred = clear_of::<T>(centre, radius);
    let kept = survivors(items, centre, radius);
    items.lemma_filter_len(pred);
    assert forall|i: int| 0 <= i < kept.len() implies {
        &&& items.contains(#[trigger] kept[i])
        &&& !spec_touches(kept[i], centre, radius)
    } by {
        items.lemma_filter_pred(pred, i);
        assert(kept.contains(kept[i]));
        items.lemma_filter_contains_rev(pred, kept[i]);
    }
    assert forall|i: int|
        0 <= i < items.len() && !spec_touches(
            #[trigger] items[i],
            centre,
            radius,
        ) implies kept.contains(items[i]) by {
        items.lemma_filter_contains(pred, i);
    }
}

} // verus!
