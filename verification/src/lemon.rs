//! The lemon: an enemy that wanders for a while and then charges the player
//! for good.

use vstd::prelude::*;
use crate::body::Body;
use crate::geom::{
    dist_sq, lemma_step_stays_in_arena, spec_dist_sq, spec_step, step_towards, Vec2,
};
use crate::random::{gen_range, is_spawn_pos, rand_spawn_pos};

verus! {

/// The most lemons alive at once.
pub const LEMONS_MAX: usize = 64;

/// Distance per tick of a wandering lemon (0.5 world units).
pub const LEMON_SPEED_WANDER: i32 = 5_000;

/// A wandering lemon closer than this to its target picks a new one (10
/// world units).
pub const LEMON_WANDER_CLOSE: i32 = 100_000;

/// Distance per tick of a charging lemon (1.8 world units).
pub const LEMON_SPEED_ATTACK: i32 = 18_000;

/// The fewest ticks that a new lemon wanders.
pub const LEMON_ATTACKS_AFTER_MIN: i32 = 180;

/// The most ticks that a new lemon wanders.
pub const LEMON_ATTACKS_AFTER_MAX: i32 = 1_200;

/// Radius of a lemon's body (10 world units).
pub const LEMON_RADIUS: i32 = 100_000;

/// A lemon. While `attacks_in` is above zero it wanders towards `wander_to`
/// and counts down; from zero on it charges the player and never wanders
/// again.
#[derive(Clone, Copy, Debug, PartialEq, Eq, Structural)]
pub struct Lemon {
    pub pos: Vec2,
    pub wander_to: Vec2,
    pub attacks_in: i32,
}

impl Lemon {
    /// The lemon stands in the arena and wanders towards a point of the world.
    pub open spec fn wf(self) -> bool {
        self.pos.in_arena() && self.wander_to.in_world()
    }

    /// The lemon charges: its countdown has run out.
    pub open spec fn spec_is_attacking(self) -> bool {
        self.attacks_in <= 0
    }

    /// The lemon is close enough to its wander target to want a new one.
    pub open spec fn needs_target(self) -> bool {
        spec_dist_sq(self.pos, self.wander_to) < LEMON_WANDER_CLOSE * LEMON_WANDER_CLOSE
    }

    /// The lemon after one tick of charging at `player_pos`: one step closer,
    /// nothing else changed.
    pub open spec fn spec_charge(self, player_pos: Vec2) -> Lemon {
        Lemon { pos: spec_step(self.pos, player_pos, LEMON_SPEED_ATTACK as int), ..self }
    }

    /// The lemon after one tick of wandering towards `target`: the countdown
    /// one lower, `target` taken as wander target, one step towards it.
    pub open spec fn spec_wander(self, target: Vec2) -> Lemon {
        Lemon {
            pos: spec_step(self.pos, target, LEMON_SPEED_WANDER as int),
            wander_to: target,
            attacks_in: (self.attacks_in - 1) as i32,
        }
    }

    /// The lemon after one tick, where `fresh_target` is the wander target to
    /// take up if this tick needs a new one.
    pub open spec fn spec_tick(self, player_pos: Vec2, fresh_target: Vec2) -> Lemon {
        if self.spec_is_attacking() {
            self.spec_charge(player_pos)
        } else if self.needs_target() {
            self.spec_wander(fresh_target)
        } else {
            self.spec_wander(self.wander_to)
        }
    }

    /// `after` can be this lemon one tick later, with the player at
    /// `player_pos`: it is the lemon after one tick for the wander target
    /// that `after` has, and that target is new only if the tick called for
    /// one, and then a spawn position that keeps away from the player.
    pub open spec fn ticks_to(self, after: Lemon, player_pos: Vec2) -> bool {
        &&& after == self.spec_tick(player_pos, after.wander_to)
        &&& if !self.spec_is_attacking() && self.needs_target() {
            is_spawn_pos(after.wander_to, player_pos)
        } else {
            after.wander_to == self.wander_to
        }
    }

    /// The lemon has just spawned at `spawn_point`: it stands there, has no
    /// other place to wander to yet, and will wander for a number of ticks
    /// between `LEMON_ATTACKS_AFTER_MIN` and `LEMON_ATTACKS_AFTER_MAX`.
    pub open spec fn is_new_at(self, spawn_point: Vec2) -> bool {
        &&& self.pos == spawn_point
        &&& self.wander_to == spawn_point
        &&& LEMON_ATTACKS_AFTER_MIN <= self.attacks_in <= LEMON_ATTACKS_AFTER_MAX
    }

    /// A lemon that has just spawned at `spawn_point`, with a random number
    /// of ticks to wander.
    pub fn new(spawn_point: Vec2) -> (lemon: Lemon)
        ensures
            lemon.is_new_at(spawn_point),
    {
        Lemon {
            pos: spawn_point,
            wander_to: spawn_point,
            attacks_in: gen_range(LEMON_ATTACKS_AFTER_MIN, LEMON_ATTACKS_AFTER_MAX),
        }
    }

    /// Whether the lemon charges.
    pub fn is_attacking(&self) -> (attacking: bool)
        ensures
            attacking == self.spec_is_attacking(),
    {
        self.attacks_in <= 0
    }

    /// Whether a wandering lemon would pick a new target this tick.
    pub fn wants_target(&self) -> (wants: bool)
        requires
            self.pos.bounded(),
            self.wander_to.bounded(),
        ensures
            wants == self.needs_target(),
    {
        let close: i64 = LEMON_WANDER_CLOSE as i64;
        assert(close * close == 10_000_000_000) by (nonlinear_arith)
            requires
                close == 100_000,
        ;
        dist_sq(self.pos, self.wander_to) < close * close
    }

    /// One tick with the new wander target given: the lemon takes up
    /// `fresh_target` if, and only if, it wanders and is close to its old
    /// target.
    pub fn tick_with(&mut self, player_pos: Vec2, fresh_target: Vec2)
        requires
            old(self).wf(),
            player_pos.in_world(),
            fresh_target.in_world(),
        ensures
            *final(self) == old(self).spec_tick(player_pos, fresh_target),
            final(self).wf(),
    {
        if self.is_attacking() {
            proof {
                lemma_step_stays_in_arena(self.pos, player_pos, LEMON_SPEED_ATTACK as int);
            }
            self.pos = step_towards(self.pos, player_pos, LEMON_SPEED_ATTACK);
            return ;
        }
        self.attacks_in = self.attacks_in - 1;
        if self.wants_target() {
            self.wander_to = fresh_target;
        }
        proof {
            lemma_step_stays_in_arena(self.pos, self.wander_to, LEMON_SPEED_WANDER as int);
        }
        self.pos = step_towards(self.pos, self.wander_to, LEMON_SPEED_WANDER);
    }

    /// One tick. A charging lemon steps towards the player. A wandering lemon
    /// counts down, draws a new wander target that keeps away from the player
    /// if it is close to its old one, and steps towards its target.
    pub fn tick(&mut self, player_pos: Vec2)
        requires
            old(self).wf(),
            player_pos.in_world(),
        ensures
            old(self).ticks_to(*final(self), player_pos),
            final(self).wf(),
    {
        let fresh: Vec2 = if !self.is_attacking() && self.wants_target() {
            rand_spawn_pos(player_pos)
        } else {
            self.wander_to
        };
        self.tick_with(player_pos, fresh);
    }
}

impl Body for Lemon {
    open spec fn body_pos(&self) -> Vec2 {
        self.pos
    }

    open spec fn body_radius(&self) -> int {
        LEMON_RADIUS as int
    }

    fn centre(&self) -> (p: Vec2) {
        self.pos
    }

    fn radius(&self) -> (r: i32) {
        LEMON_RADIUS
    }
}

/// Charging is for good: a lemon that charges still charges after any tick,
/// with its countdown untouched, and that tick moved it towards the player
/// and not towards its wander target. This holds of every countdown at or
/// below zero.
pub proof fn lemma_charge_is_permanent(lemon: Lemon, player_pos: Vec2, fresh_target: Vec2)
    requires
        lemon.spec_is_attacking(),
    ensures
        lemon.spec_tick(player_pos, fresh_target).spec_is_attacking(),
        lemon.spec_tick(player_pos, fresh_target).attacks_in == lemon.attacks_in,
        lemon.spec_tick(player_pos, fresh_target).wander_to == lemon.wander_to,
        lemon.spec_tick(player_pos, fresh_target).pos == spec_step(
            lemon.pos,
            player_pos,
            LEMON_SPEED_ATTACK as int,
        ),
{
}

/// `lemons` is the life of one lemon, tick after tick, with the player at
/// `players[i]` in the tick from `lemons[i]` to `lemons[i + 1]`.
pub open spec fn is_life(lemons: Seq<Lemon>, players: Seq<Vec2>) -> bool {
    &&& lemons.len() == players.len() + 1
    &&& forall|i: int|
        0 <= i < players.len() ==> (#[trigger] lemons[i]).ticks_to(lemons[i + 1], players[i])
}

/// A lemon that charges never wanders again: from the tick in which it
/// charges on, through however many ticks, it charges, its countdown and its
/// wander target stay as they are, and every tick moves it one charging step
/// towards where the player is in that tick.
pub proof fn lemma_charging_for_good(lemons: Seq<Lemon>, players: Seq<Vec2>, from: int, n: int)
    requires
        is_life(lemons, players),
        0 <= from <= n < lemons.len(),
        lemons[from].spec_is_attacking(),
    ensures
        lemons[n].spec_is_attacking(),
        lemons[n].attacks_in == lemons[from].attacks_in,
        lemons[n].wander_to == lemons[from].wander_to,
        n > from ==> lemons[n].pos == spec_step(
            lemons[n - 1].pos,
            players[n - 1],
            LEMON_SPEED_ATTACK as int,
        ),
    decreases n - from,
{
    if n > from {
        lemma_charging_for_good(lemons, players, from, n - 1);
        assert(lemons[n - 1].ticks_to(lemons[n - 1 + 1], players[n - 1]));
    }
}

/// A wandering lemon whose countdown stands at one charges from the next
/// tick on: the countdown reaches exactly zero.
pub proof fn lemma_countdown_reaches_zero(lemon: Lemon, player_pos: Vec2, fresh_target: Vec2)
    requires
        lemon.attacks_in > 0,
    ensures
        lemon.spec_tick(player_pos, fresh_target).attacks_in == lemon.attacks_in - 1,
        lemon.spec_tick(player_pos, fresh_target).spec_is_attacking() <==> lemon.attacks_in == 1,
{
}

} // verus!
