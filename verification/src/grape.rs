//! The grape: an enemy that stays where it is and shoots at the player.

use vstd::prelude::*;
use crate::body::Body;
use crate::bullet::{Bullet, BULLET_RNG, BULLET_SPEED};
use crate::geom::{dist_sq, spec_dist_sq, spec_plus, spec_velocity, velocity_towards, Vec2};
use crate::random::gen_range;

verus! {

/// The most grapes alive at once.
pub const GRAPES_MAX: usize = 32;

/// The fewest ticks between two attacks of a grape.
pub const GRAPE_ATTACKS_AFTER_MIN: i32 = 300;

/// The most ticks between two attacks of a grape.
pub const GRAPE_ATTACKS_AFTER_MAX: i32 = 900;

/// Radius of a grape's body (25 world units).
pub const GRAPE_RADIUS: i32 = 250_000;

/// A grape does not shoot at a player closer than this (100 world units).
pub const GRAPE_NO_SHOOT_WITHIN: i32 = 1_000_000;

/// A grape: where it stands, and the ticks left until its next attack.
#[derive(Clone, Copy, Debug, PartialEq, Eq, Structural)]
pub struct Grape {
    pub pos: Vec2,
    pub attacks_in: i32,
}

impl Grape {
    /// The grape stands in the world rectangle.
    pub open spec fn wf(self) -> bool {
        self.pos.in_world()
    }

    /// This tick only counts down: the countdown stays above zero.
    pub open spec fn spec_counts_down(self) -> bool {
        self.attacks_in > 1
    }

    /// The player is too close to be shot at.
    pub open spec fn spec_too_close(self, player_pos: Vec2) -> bool {
        spec_dist_sq(self.pos, player_pos) < GRAPE_NO_SHOOT_WITHIN * GRAPE_NO_SHOOT_WITHIN
    }

    /// This tick fires a bullet: the countdown runs out and the player is not
    /// too close.
    pub open spec fn spec_fires(self, player_pos: Vec2) -> bool {
        !self.spec_counts_down() && !self.spec_too_close(player_pos)
    }

    /// The grape after one tick, where `rearm` is the countdown to take up if
    /// this one runs out: the countdown one lower, or, when that would not be
    /// above zero, `rearm`. The grape re-arms whether it fires or not.
    pub open spec fn spec_tick(self, rearm: i32) -> Grape {
        if self.spec_counts_down() {
            Grape { attacks_in: (self.attacks_in - 1) as i32, ..self }
        } else {
            Grape { attacks_in: rearm, ..self }
        }
    }

    /// The bullet of a shot aimed `offset` off the player: it starts at the
    /// grape and flies towards the aim at `BULLET_SPEED`.
    pub open spec fn spec_shot(self, player_pos: Vec2, offset: Vec2) -> Bullet {
        Bullet {
            pos: self.pos,
            dir: spec_velocity(self.pos, spec_plus(player_pos, offset), BULLET_SPEED as int),
        }
    }

    /// `after` can be this grape one tick later: it is the grape after one
    /// tick for the countdown that `after` has, and a countdown that was taken
    /// up anew lies between `GRAPE_ATTACKS_AFTER_MIN` and
    /// `GRAPE_ATTACKS_AFTER_MAX`.
    pub open spec fn ticks_to(self, after: Grape) -> bool {
        &&& after == self.spec_tick(after.attacks_in)
        &&& !self.spec_counts_down() ==> GRAPE_ATTACKS_AFTER_MIN <= after.attacks_in
            <= GRAPE_ATTACKS_AFTER_MAX
    }

    /// The grape has just spawned at `spawn_point`, with a number of ticks
    /// until its first attack between `GRAPE_ATTACKS_AFTER_MIN` and
    /// `GRAPE_ATTACKS_AFTER_MAX`.
    pub open spec fn is_new_at(self, spawn_point: Vec2) -> bool {
        &&& self.pos == spawn_point
        &&& GRAPE_ATTACKS_AFTER_MIN <= self.attacks_in <= GRAPE_ATTACKS_AFTER_MAX
    }

    /// A grape that has just spawned at `spawn_point`, with a random number
    /// of ticks until its first attack.
    pub fn new(spawn_point: Vec2) -> (grape: Grape)
        ensures
            grape.is_new_at(spawn_point),
    {
        Grape {
            pos: spawn_point,
            attacks_in: gen_range(GRAPE_ATTACKS_AFTER_MIN, GRAPE_ATTACKS_AFTER_MAX),
        }
    }

    /// Whether this tick only counts down.
    pub fn counts_down(&self) -> (counting: bool)
        ensures
            counting == self.spec_counts_down(),
    {
        self.attacks_in > 1
    }

    /// Whether the player is too close to be shot at.
    pub fn too_close(&self, player_pos: Vec2) -> (close: bool)
        requires
            self.pos.bounded(),
            player_pos.bounded(),
        ensures
            close == self.spec_too_close(player_pos),
    {
        let limit: i64 = GRAPE_NO_SHOOT_WITHIN as i64;
        assert(limit * limit == 1_000_000_000_000) by (nonlinear_arith)
            requires
                limit == 1_000_000,
        ;
        dist_sq(self.pos, player_pos) < limit * limit
    }

    /// One tick with the draws given: `rearm` is the countdown taken up if
    /// this one runs out, `offset` how far off the player a shot is aimed.
    /// A bullet that is fired is pushed to the end of `bullets`. Returns
    /// whether one was fired.
    pub fn tick_with(
        &mut self,
        player_pos: Vec2,
        rearm: i32,
        offset: Vec2,
        bullets: &mut Vec<Bullet>,
    ) -> (fired: bool)
        requires
            old(self).wf(),
            player_pos.in_world(),
            offset.within(BULLET_RNG as int),
        ensures
            *final(self) == old(self).spec_tick(rearm),
            fired == old(self).spec_fires(player_pos),
            fired ==> final(bullets)@ == old(bullets)@.push(
                old(self).spec_shot(player_pos, offset),
            ),
            fired ==> old(self).spec_shot(player_pos, offset).is_launched(),
            !fired ==> final(bullets)@ == old(bullets)@,
    {
        if self.counts_down() {
            self.attacks_in = self.attacks_in - 1;
            return false;
        }
        self.attacks_in = rearm;
        if self.too_close(player_pos) {
            return false;
        }
        let target: Vec2 = player_pos.plus(offset);
        let dir: Vec2 = velocity_towards(self.pos, target, BULLET_SPEED);
        bullets.push(Bullet { pos: self.pos, dir });
        true
    }

    /// One tick. The grape counts down. When the countdown runs out it draws
    /// a new one, and, unless the player is too close, fires a bullet at a
    /// random point near the player. Returns whether it fired.
    pub fn tick(&mut self, player_pos: Vec2, bullets: &mut Vec<Bullet>) -> (fired: bool)
        requires
            old(self).wf(),
            player_pos.in_world(),
        ensures
            old(self).ticks_to(*final(self)),
            fired == old(self).spec_fires(player_pos),
            fired ==> final(bullets)@.len() == old(bullets)@.len() + 1,
            fired ==> final(bullets)@.drop_last() == old(bullets)@,
            fired ==> is_shot_at(final(bullets)@.last(), *old(self), player_pos),
            fired ==> final(bullets)@.last().is_launched(),
            !fired ==> final(bullets)@ == old(bullets)@,
    {
        let rearm: i32 = if self.counts_down() {
            0
        } else {
            gen_range(GRAPE_ATTACKS_AFTER_MIN, GRAPE_ATTACKS_AFTER_MAX)
        };
        let offset: Vec2 = if !self.counts_down() && !self.too_close(player_pos) {
            let x: i32 = gen_range(-BULLET_RNG, BULLET_RNG);
            let y: i32 = gen_range(-BULLET_RNG, BULLET_RNG);
            Vec2 { x, y }
        } else {
            Vec2 { x: 0, y: 0 }
        };
        let fired: bool = self.tick_with(player_pos, rearm, offset, bullets);
        proof {
            if fired {
                assert(bullets@.drop_last() =~= old(bullets)@);
            }
        }
        fired
    }
}

/// `b` is a bullet that `grape` can fire at a player at `player_pos`: aimed
/// at most `BULLET_RNG` off the player along either axis.
pub open spec fn is_shot_at(b: Bullet, grape: Grape, player_pos: Vec2) -> bool {
    exists|offset: Vec2|
        offset.within(BULLET_RNG as int) && b == #[trigger] grape.spec_shot(player_pos, offset)
}

impl Body for Grape {
    open spec fn body_pos(&self) -> Vec2 {
        self.pos
    }

    open spec fn body_radius(&self) -> int {
        GRAPE_RADIUS as int
    }

    fn centre(&self) -> (p: Vec2) {
        self.pos
    }

    fn radius(&self) -> (r: i32) {
        GRAPE_RADIUS
    }
}

} // verus!
