//! The game state, its mathematical view and its invariant.

use vstd::prelude::*;
use crate::bread::{Bread, BREADS_MAX};
use crate::bullet::Bullet;
use crate::geom::{Vec2, UNIT, WORLD_HEIGHT, WORLD_WIDTH};
use crate::grape::{Grape, GRAPES_MAX};
use crate::lemon::{Lemon, LEMONS_MAX};
use crate::player::{
    player_state_at, spec_player_state, PlayerState, PLAYER_ROLL_RECOVERY_TICKS,
    PLAYER_ROLL_TICKS,
};
use crate::spawner::TICKS_BETWEEN_WAVES_MAX;

verus! {

/// The last tick that a game can reach; it leaves the tick counter room for
/// the timers that are set ahead of it.
pub const TICK_LIMIT: i32 = 2_000_000_000;

/// The whole state of a game.
#[derive(Debug)]
pub struct GameState {
    pub game_over: bool,
    pub tick: i32,
    pub next_wave_num: i32,
    pub next_wave_at_tick: i32,
    pub player_pos: Vec2,
    pub player_dir: Vec2,
    /// The tick at which the player stops rolling and starts to recover.
    pub player_rolling_until: i32,
    pub knife_pos: Vec2,
    /// The knife keeps a direction of its own, so that it still points
    /// somewhere when the player stands still.
    pub knife_dir: Vec2,
    pub lemons: Vec<Lemon>,
    pub grapes: Vec<Grape>,
    pub bullets: Vec<Bullet>,
    pub breads: Vec<Bread>,
}

/// The game state as a mathematical value: the counters and positions as
/// they are, each collection as the sequence of its entities.
pub struct GameView {
    pub game_over: bool,
    pub tick: i32,
    pub next_wave_num: i32,
    pub next_wave_at_tick: i32,
    pub player_pos: Vec2,
    pub player_dir: Vec2,
    pub player_rolling_until: i32,
    pub knife_pos: Vec2,
    pub knife_dir: Vec2,
    pub lemons: Seq<Lemon>,
    pub grapes: Seq<Grape>,
    pub bullets: Seq<Bullet>,
    pub breads: Seq<Bread>,
}

impl View for GameState {
    type V = GameView;

    open spec fn view(&self) -> GameView {
        GameView {
            game_over: self.game_over,
            tick: self.tick,
            next_wave_num: self.next_wave_num,
            next_wave_at_tick: self.next_wave_at_tick,
            player_pos: self.player_pos,
            player_dir: self.player_dir,
            player_rolling_until: self.player_rolling_until,
            knife_pos: self.knife_pos,
            knife_dir: self.knife_dir,
            lemons: self.lemons@,
            grapes: self.grapes@,
            bullets: self.bullets@,
            breads: self.breads@,
        }
    }
}

/// Centre of the world rectangle.
pub open spec fn world_centre() -> Vec2 {
    Vec2 { x: 6_400_000, y: 3_600_000 }
}

/// The state in which every game starts: tick zero, the first wave due at
/// once, the player at the centre of the world and neither rolling nor
/// recovering, the knife pointing right, no enemies.
pub open spec fn initial_view() -> GameView {
    GameView {
        game_over: false,
        tick: 0,
        next_wave_num: 0,
        next_wave_at_tick: 0,
        player_pos: world_centre(),
        player_dir: Vec2 { x: 0, y: 0 },
        player_rolling_until: (-PLAYER_ROLL_RECOVERY_TICKS) as i32,
        knife_pos: world_centre(),
        knife_dir: Vec2 { x: UNIT, y: 0 },
        lemons: Seq::empty(),
        grapes: Seq::empty(),
        bullets: Seq::empty(),
        breads: Seq::empty(),
    }
}

impl GameView {
    /// The invariant of the game state between two ticks.
    pub open spec fn wf(self) -> bool {
        &&& 0 <= self.tick <= TICK_LIMIT
        &&& 0 <= self.next_wave_num <= self.tick + 1
        &&& self.next_wave_at_tick <= self.tick ==> self.next_wave_num <= self.tick
        &&& self.next_wave_at_tick <= self.tick + TICKS_BETWEEN_WAVES_MAX
        &&& -PLAYER_ROLL_RECOVERY_TICKS <= self.player_rolling_until <= self.tick
            + PLAYER_ROLL_TICKS
        &&& self.player_pos.in_world()
        &&& self.player_dir.within(UNIT as int)
        &&& self.knife_dir.within(UNIT as int)
        &&& !self.knife_dir.is_zero()
        &&& self.knife_pos.bounded()
        &&& self.lemons.len() <= LEMONS_MAX
        &&& self.grapes.len() <= GRAPES_MAX
        &&& self.breads.len() <= BREADS_MAX
        &&& forall|i: int| 0 <= i < self.lemons.len() ==> (#[trigger] self.lemons[i]).wf()
        &&& forall|i: int| 0 <= i < self.grapes.len() ==> (#[trigger] self.grapes[i]).wf()
        &&& forall|i: int| 0 <= i < self.bullets.len() ==> (#[trigger] self.bullets[i]).wf()
        &&& forall|i: int| 0 <= i < self.breads.len() ==> (#[trigger] self.breads[i]).wf()
    }

    /// The player's state, derived from the counters.
    pub open spec fn player_state(self) -> PlayerState {
        spec_player_state(self.game_over, self.tick as int, self.player_rolling_until as int)
    }
}

impl GameState {
    /// A new game.
    pub fn new() -> (state: GameState)
        ensures
            state@ == initial_view(),
            state@.wf(),
    {
        let world_centre: Vec2 = Vec2 { x: WORLD_WIDTH / 2, y: WORLD_HEIGHT / 2 };
        let state = GameState {
            game_over: false,
            tick: 0,
            next_wave_num: 0,
            next_wave_at_tick: 0,
            player_pos: world_centre,
            player_dir: Vec2 { x: 0, y: 0 },
            player_rolling_until: -PLAYER_ROLL_RECOVERY_TICKS,
            knife_pos: world_centre,
            knife_dir: Vec2 { x: UNIT, y: 0 },
            lemons: Vec::with_capacity(LEMONS_MAX),
            grapes: Vec::with_capacity(GRAPES_MAX),
            bullets: Vec::with_capacity(128),
            breads: Vec::with_capacity(BREADS_MAX),
        };
        assert(state@.lemons =~= Seq::empty());
        assert(state@.grapes =~= Seq::empty());
        assert(state@.bullets =~= Seq::empty());
        assert(state@.breads =~= Seq::empty());
        state
    }

    /// The player's state, derived from the counters.
    pub fn player_state(&self) -> (s: PlayerState)
        ensures
            s == self@.player_state(),
    {
        player_state_at(self.game_over, self.tick, self.player_rolling_until)
    }
}

impl Default for GameState {
    /// A new game.
    fn default() -> (state: GameState)
        ensures
            state@ == initial_view(),
            state@.wf(),
    {
        GameState::new()
    }
}

/// A state that holds the enemies of a well-formed state is well formed as
/// soon as its counters and the player's and the knife's fields are in
/// range.
pub proof fn lemma_wf_frame(pre: GameView, post: GameView)
    requires
        pre.wf(),
        post.lemons == pre.lemons,
        post.grapes == pre.grapes,
        post.bullets == pre.bullets,
        post.breads == pre.breads,
        0 <= post.tick <= TICK_LIMIT,
        0 <= post.next_wave_num <= post.tick + 1,
        post.next_wave_at_tick <= post.tick ==> post.next_wave_num <= post.tick,
        post.next_wave_at_tick <= post.tick + TICKS_BETWEEN_WAVES_MAX,
        -PLAYER_ROLL_RECOVERY_TICKS <= post.player_rolling_until <= post.tick + PLAYER_ROLL_TICKS,
        post.player_pos.in_world(),
        post.player_dir.within(UNIT as int),
        post.knife_dir.within(UNIT as int),
        !post.knife_dir.is_zero(),
        post.knife_pos.bounded(),
    ensures
        post.wf(),
{
}

} // verus!
