//! The bread: an enemy that sits still, warns, and then dashes at the place
//! where the player stood.

use vstd::prelude::*;
use crate::body::Body;
use crate::geom::{
    dist_sq, lemma_step_stays_in_arena, spec_dist_sq, spec_step, step_towards, Vec2,
};
use crate::random::{gen_range, is_spawn_pos, rand_spawn_pos};

verus! {

/// The most breads alive at once.
pub const BREADS_MAX: usize = 10;

/// Radius of a bread's body (20 world units).
pub const BREAD_RADIUS: i32 = 200_000;

/// The fewest ticks that a bread sits still between two charges.
pub const BREAD_IDLE_MIN: i32 = 240;

/// The most ticks that a bread sits still between two charges.
pub const BREAD_IDLE_MAX: i32 = 360;

/// The bread warns when this many ticks are left until its charge.
pub const BREAD_CHANGE_WARN_TICKS: i32 = 180;

/// Distance per tick of a charging bread (8 world units).
pub const BREAD_SPEED: i32 = 80_000;

/// A bread. While `ticks_until_charge` is above zero it sits still and counts
/// down. When the countdown reaches zero it notes where the player stands, in
/// `attacking`, and from the next tick on dashes there.
#[derive(Clone, Copy, Debug, PartialEq, Eq, Structural)]
pub struct Bread {
    pub pos: Vec2,
    pub ticks_until_charge: i32,
    pub attacking: Vec2,
}

impl Bread {
    /// The bread stands in the arena and aims at a point of the world.
    pub open spec fn wf(self) -> bool {
        self.pos.in_arena() && self.attacking.in_world()
    }

    /// The bread sits still and counts down.
    pub open spec fn spec_is_idle(self) -> bool {
        self.ticks_until_charge > 0
    }

    /// The bread is less than one tick's travel from its aim.
    pub open spec fn spec_arrives(self) -> bool {
        spec_dist_sq(self.pos, self.attacking) < BREAD_SPEED * BREAD_SPEED
    }

    /// This tick gives the warning: the countdown steps down to
    /// `BREAD_CHANGE_WARN_TICKS`.
    pub open spec fn spec_warns(self) -> bool {
        self.ticks_until_charge - 1 == BREAD_CHANGE_WARN_TICKS
    }

    /// The bread after one tick, where `rearm` is the countdown to take up if
    /// the charge ends in this tick.
    ///
    /// Idle, it counts down, and notes the player's position when the
    /// countdown reaches zero. Charging, it moves one step towards its aim,
    /// or, when less than a step away, lands exactly on it and is idle again.
    pub open spec fn spec_tick(self, player_pos: Vec2, rearm: i32) -> Bread {
        if self.spec_is_idle() {
            Bread {
                ticks_until_charge: (self.ticks_until_charge - 1) as i32,
                attacking: if self.ticks_until_charge == 1 {
                    player_pos
                } else {
                    self.attacking
                },
                ..self
            }
        } else if self.spec_arrives() {
            Bread { pos: self.attacking, ticks_until_charge: rearm, ..self }
        } else {
            Bread { pos: spec_step(self.pos, self.attacking, BREAD_SPEED as int), ..self }
        }
    }

    /// `after` can be this bread one tick later, with the player at
    /// `player_pos`: it is the bread after one tick for the countdown that
    /// `after` has, and a countdown that was taken up anew lies between
    /// `BREAD_IDLE_MIN` and `BREAD_IDLE_MAX`.
    pub open spec fn ticks_to(self, after: Bread, player_pos: Vec2) -> bool {
        &&& after == self.spec_tick(player_pos, after.ticks_until_charge)
        &&& !self.spec_is_idle() && self.spec_arrives() ==> BREAD_IDLE_MIN
            <= after.ticks_until_charge <= BREAD_IDLE_MAX
    }

    /// The bread has just spawned with the player at `player_pos`: it stands
    /// at a spawn position that keeps away from the player, is idle for
    /// `BREAD_IDLE_MIN` ticks and aims nowhere yet.
    pub open spec fn is_new_for(self, player_pos: Vec2) -> bool {
        &&& is_spawn_pos(self.pos, player_pos)
        &&& self.ticks_until_charge == BREAD_IDLE_MIN
        &&& self.attacking.is_zero()
    }

    /// A bread that has just spawned at a random place away from the player,
    /// idle for `BREAD_IDLE_MIN` ticks.
    pub fn new(player_pos: Vec2) -> (bread: Bread)
        requires
            player_pos.bounded(),
        ensures
            bread.is_new_for(player_pos),
            bread.wf(),
    {
        Bread {
            pos: rand_spawn_pos(player_pos),
            ticks_until_charge: BREAD_IDLE_MIN,
            attacking: Vec2 { x: 0, y: 0 },
        }
    }

    /// Whether the bread sits still and counts down.
    pub fn is_idle(&self) -> (idle: bool)
        ensures
            idle == self.spec_is_idle(),
    {
        self.ticks_until_charge > 0
    }

    /// Whether the bread is less than one tick's travel from its aim.
    pub fn arrives(&self) -> (near: bool)
        requires
            self.pos.bounded(),
            self.attacking.bounded(),
        ensures
            near == self.spec_arrives(),
    {
        let reach: i64 = BREAD_SPEED as i64;
        assert(reach * reach == 6_400_000_000) by (nonlinear_arith)
            requires
                reach == 80_000,
        ;
        dist_sq(self.pos, self.attacking) < reach * reach
    }

    /// One tick with the draw given: `rearm` is the countdown taken up if the
    /// charge ends in this tick. Returns whether the bread gave its warning.
    pub fn tick_with(&mut self, player_pos: Vec2, rearm: i32) -> (warned: bool)
        requires
            old(self).wf(),
            player_pos.in_world(),
        ensures
            *final(self) == old(self).spec_tick(player_pos, rearm),
            warned == (old(self).spec_is_idle() && old(self).spec_warns()),
            final(self).wf(),
    {
        if self.ticks_until_charge > 0 {
            self.ticks_until_charge = self.ticks_until_charge - 1;
            if self.ticks_until_charge == BREAD_CHANGE_WARN_TICKS {
                return true;
            } else if self.ticks_until_charge == 0 {
                self.attacking = player_pos;
            }
            return false;
        }
        if !self.arrives() {
            proof {
                lemma_step_stays_in_arena(self.pos, self.attacking, BREAD_SPEED as int);
            }
            self.pos = step_towards(self.pos, self.attacking, BREAD_SPEED);
        } else {
            self.pos = self.attacking;
            self.ticks_until_charge = rearm;
        }
        false
    }

    /// One tick. An idle bread counts down, warns at
    /// `BREAD_CHANGE_WARN_TICKS` and notes the player's position at zero. A
    /// charging bread dashes towards the noted position; on arrival it draws
    /// a new idle time. Returns whether the bread gave its warning.
    pub fn tick(&mut self, player_pos: Vec2) -> (warned: bool)
        requires
            old(self).wf(),
            player_pos.in_world(),
        ensures
            old(self).ticks_to(*final(self), player_pos),
            warned == (old(self).spec_is_idle() && old(self).spec_warns()),
            final(self).wf(),
    {
        let rearm: i32 = if !self.is_idle() && self.arrives() {
            gen_range(BREAD_IDLE_MIN, BREAD_IDLE_MAX)
        } else {
            self.ticks_until_charge
        };
        self.tick_with(player_pos, rearm)
    }
}

impl Body for Bread {
    open spec fn body_pos(&self) -> Vec2 {
        self.pos
    }

    open spec fn body_radius(&self) -> int {
        BREAD_RADIUS as int
    }

    fn centre(&self) -> (p: Vec2) {
        self.pos
    }

    fn radius(&self) -> (r: i32) {
        BREAD_RADIUS
    }
}

/// `breads` is the life of one bread, tick after tick, with the player at
/// `players[i]` in the tick from `breads[i]` to `breads[i + 1]`.
pub open spec fn is_life(breads: Seq<Bread>, players: Seq<Vec2>) -> bool {
    &&& breads.len() == players.len() + 1
    &&& forall|i: int|
        0 <= i < players.len() ==> (#[trigger] breads[i]).ticks_to(breads[i + 1], players[i])
}

/// An idle bread counts down in place, one per tick, and warns in one tick
/// of the countdown only: the tick that brings the countdown to
/// `BREAD_CHANGE_WARN_TICKS`. When the countdown ends the bread aims at where
/// the player stands in that very tick.
pub proof fn lemma_idle_countdown(breads: Seq<Bread>, players: Seq<Vec2>, n: int)
    requires
        is_life(breads, players),
        0 <= n < breads.len(),
        n <= breads[0].ticks_until_charge,
    ensures
        breads[n].ticks_until_charge == breads[0].ticks_until_charge - n,
        breads[n].pos == breads[0].pos,
        n > 0 ==> (breads[n - 1].spec_is_idle() && breads[n - 1].spec_warns()
            <==> breads[0].ticks_until_charge - n == BREAD_CHANGE_WARN_TICKS),
        n > 0 && breads[n].ticks_until_charge == 0 ==> breads[n].attacking == players[n - 1],
        n > 0 && breads[n].ticks_until_charge > 0 ==> breads[n].attacking == breads[n - 1].attacking,
    decreases n,
{
    if n > 0 {
        lemma_idle_countdown(breads, players, n - 1);
        assert(breads[n - 1].ticks_to(breads[n - 1 + 1], players[n - 1]));
    }
}

/// A charge is not aimed anew: while a bread charges, its aim stays where it
/// was taken, wherever the player goes, and the charge ends exactly on it.
pub proof fn lemma_charge_keeps_aim(bread: Bread, player_pos: Vec2, rearm: i32)
    requires
        !bread.spec_is_idle(),
    ensures
        bread.spec_tick(player_pos, rearm).attacking == bread.attacking,
        bread.spec_arrives() ==> bread.spec_tick(player_pos, rearm).pos == bread.attacking
            && bread.spec_tick(player_pos, rearm).ticks_until_charge == rearm,
        !bread.spec_arrives() ==> bread.spec_tick(player_pos, rearm).pos == spec_step(
            bread.pos,
            bread.attacking,
            BREAD_SPEED as int,
        ) && bread.spec_tick(player_pos, rearm).ticks_until_charge == bread.ticks_until_charge,
{
}

} // verus!
