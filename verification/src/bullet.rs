//! The bullet: a projectile that flies in a straight line.

use vstd::prelude::*;
use crate::body::Body;
use crate::geom::{spec_plus, Vec2, WORLD_HEIGHT, WORLD_WIDTH};

verus! {

/// How far from the player, along either axis, a shot may be aimed (60
/// world units).
pub const BULLET_RNG: i32 = 600_000;

/// Radius of a bullet's body (13 world units).
pub const BULLET_RADIUS: i32 = 130_000;

/// Distance per tick of a bullet (5 world units).
pub const BULLET_SPEED: i32 = 50_000;

/// A bullet: where it is, and the displacement that every tick adds.
#[derive(Clone, Copy, Debug, PartialEq, Eq, Structural)]
pub struct Bullet {
    pub pos: Vec2,
    pub dir: Vec2,
}

impl Bullet {
    /// The bullet is in the arena and no faster than `BULLET_SPEED` along
    /// either axis.
    pub open spec fn wf(self) -> bool {
        self.pos.in_arena() && self.dir.within(BULLET_SPEED as int)
    }

    /// The bullet is fit to make a step: it is in the world rectangle and no
    /// faster than `BULLET_SPEED` along either axis.
    pub open spec fn is_launched(self) -> bool {
        self.spec_in_world() && self.dir.within(BULLET_SPEED as int)
    }

    /// The bullet after one tick: moved by its displacement.
    pub open spec fn spec_tick(self) -> Bullet {
        Bullet { pos: spec_plus(self.pos, self.dir), dir: self.dir }
    }

    /// The bullet is in the world rectangle, borders included.
    pub open spec fn spec_in_world(self) -> bool {
        self.pos.in_world()
    }

    /// One tick: the bullet moves on by its displacement.
    pub fn tick(&mut self)
        requires
            i32::MIN <= old(self).pos.x + old(self).dir.x <= i32::MAX,
            i32::MIN <= old(self).pos.y + old(self).dir.y <= i32::MAX,
        ensures
            *final(self) == old(self).spec_tick(),
            final(self).pos.x == old(self).pos.x + old(self).dir.x,
            final(self).pos.y == old(self).pos.y + old(self).dir.y,
            old(self).is_launched() ==> final(self).wf(),
    {
        self.pos = self.pos.plus(self.dir);
    }

    /// Whether the bullet is in the world rectangle, borders included.
    pub fn in_world(&self) -> (inside: bool)
        ensures
            inside == self.spec_in_world(),
    {
        0 <= self.pos.x && self.pos.x <= WORLD_WIDTH && 0 <= self.pos.y && self.pos.y
            <= WORLD_HEIGHT
    }
}

/// The test for being in the world rectangle, as a predicate on bullets.
pub open spec fn inside_world() -> spec_fn(Bullet) -> bool {
    |b: Bullet| b.spec_in_world()
}

/// The bullets of `bullets` that are in the world rectangle, in their order.
pub open spec fn in_flight(bullets: Seq<Bullet>) -> Seq<Bullet> {
    bullets.filter(inside_world())
}

/// Removes every bullet that has left the world rectangle and keeps the
/// others in their order.
pub fn remove_strays(bullets: &mut Vec<Bullet>)
    ensures
        final(bullets)@ == in_flight(old(bullets)@),
{
    let mut kept: Vec<Bullet> = Vec::with_capacity(bullets.len());
    let mut i: usize = 0;
    while i < bullets.len()
        invariant
            0 <= i <= bullets.len(),
            *bullets == *old(bullets),
            kept@ == in_flight(bullets@.take(i as int)),
        decreases bullets.len() - i,
    {
        let b: Bullet = bullets[i];
        proof {
            let now = bullets@.take(i + 1);
            assert(now.drop_last() =~= bullets@.take(i as int));
            assert(now.last() == b);
            reveal(Seq::filter);
        }
        if b.in_world() {
            kept.push(b);
        }
        i = i + 1;
    }
    proof {
        assert(bullets@.take(bullets.len() as int) =~= bullets@);
    }
    *bullets = kept;
}

/// The bullets in flight are bullets of the list they were taken from, and
/// every one of them is in the world rectangle.
pub proof fn lemma_in_flight(bullets: Seq<Bullet>)
    ensures
        in_flight(bullets).len() <= bullets.len(),
        forall|i: int|
            0 <= i < in_flight(bullets).len() ==> {
                &&& bullets.contains(#[trigger] in_flight(bullets)[i])
                &&& in_flight(bullets)[i].spec_in_world()
            },
        forall|i: int|
            0 <= i < bullets.len() && (#[trigger] bullets[i]).spec_in_world() ==> in_flight(
                bullets,
            ).contains(bullets[i]),
{
    let pred = inside_world();
    let kept = in_flight(bullets);
    bullets.lemma_filter_len(pred);
    assert forall|i: int| 0 <= i < kept.len() implies {
        &&& bullets.contains(#[trigger] kept[i])
        &&& kept[i].spec_in_world()
    } by {
        bullets.lemma_filter_pred(pred, i);
        assert(kept.contains(kept[i]));
        bullets.lemma_filter_contains_rev(pred, kept[i]);
    }
    assert forall|i: int|
        0 <= i < bullets.len() && (#[trigger] bullets[i]).spec_in_world() implies kept.contains(
        bullets[i],
    ) by {
        bullets.lemma_filter_contains(pred, i);
    }
}

impl Body for Bullet {
    open spec fn body_pos(&self) -> Vec2 {
        self.pos
    }

    open spec fn body_radius(&self) -> int {
        BULLET_RADIUS as int
    }

    fn centre(&self) -> (p: Vec2) {
        self.pos
    }

    fn radius(&self) -> (r: i32) {
        BULLET_RADIUS
    }
}

} // verus!
