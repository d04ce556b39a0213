//! The player's part of a tick: reading the keys, rolling, moving, and
//! placing the knife.

use vstd::prelude::*;
use crate::geom::{ensure_in_bounds, spec_clamp_to_world, spec_plus, spec_times, Vec2, UNIT};
use crate::player::{
    direction, reads_keys, spec_direction, spec_player_state, spec_speed, speed, starts_roll,
    Input, PlayerState, PLAYER_ROLL_TICKS,
};
use crate::state::{lemma_wf_frame, GameState, GameView};

verus! {

/// How far from the player the knife is held, in units of direction (35
/// world units for a direction one unit long).
pub const KNIFE_REACH: i32 = 35;

/// The state after the player's part of a tick.
///
/// While walking or recovering the keys set the direction; otherwise it
/// stays. The roll key starts a roll that lasts `PLAYER_ROLL_TICKS` ticks,
/// from walking only. The player then moves by its direction times the
/// speed of the state it is in now, and is clamped into the world.
pub open spec fn spec_tick_player(v: GameView, input: Input) -> GameView {
    let before = v.player_state();
    let dir = if reads_keys(before) {
        spec_direction(input.up, input.left, input.down, input.right)
    } else {
        v.player_dir
    };
    let rolling_until = if starts_roll(before, input.roll) {
        (v.tick + PLAYER_ROLL_TICKS) as i32
    } else {
        v.player_rolling_until
    };
    let now = spec_player_state(v.game_over, v.tick as int, rolling_until as int);
    let moved = spec_plus(v.player_pos, spec_times(dir, spec_speed(now) as i32));
    GameView {
        player_dir: dir,
        player_rolling_until: rolling_until,
        player_pos: spec_clamp_to_world(moved),
        ..v
    }
}

/// The direction of the knife once it has been placed for a player with
/// direction `player_dir`: that direction, or, while the player stands
/// still, the direction that the knife had.
pub open spec fn spec_knife_dir(knife_dir: Vec2, player_dir: Vec2) -> Vec2 {
    if player_dir.is_zero() {
        knife_dir
    } else {
        player_dir
    }
}

/// The state after the knife has been placed: it takes the player's
/// direction unless that is zero, and sits `KNIFE_REACH` directions away
/// from the player.
pub open spec fn spec_tick_knife(v: GameView) -> GameView {
    let dir = spec_knife_dir(v.knife_dir, v.player_dir);
    GameView {
        knife_dir: dir,
        knife_pos: spec_plus(v.player_pos, spec_times(dir, KNIFE_REACH)),
        ..v
    }
}

/// Where the player stands after moving by `speed_mul` directions from
/// `pos`, clamped into the world.
fn moved_player(pos: Vec2, dir: Vec2, speed_mul: i32) -> (p: Vec2)
    requires
        pos.in_world(),
        dir.within(UNIT as int),
        0 <= speed_mul <= 6,
    ensures
        p == spec_clamp_to_world(spec_plus(pos, spec_times(dir, speed_mul))),
        p.in_world(),
{
    assert(-60_000 <= dir.x * speed_mul <= 60_000 && -60_000 <= dir.y * speed_mul <= 60_000)
        by (nonlinear_arith)
        requires
            dir.within(10_000),
            0 <= speed_mul <= 6,
    ;
    let mut p: Vec2 = pos.plus(dir.times(speed_mul));
    ensure_in_bounds(&mut p);
    p
}

/// Where the knife is held by a player at `pos` when it points along `dir`.
fn knife_position(pos: Vec2, dir: Vec2) -> (p: Vec2)
    requires
        pos.in_world(),
        dir.within(UNIT as int),
    ensures
        p == spec_plus(pos, spec_times(dir, KNIFE_REACH)),
        p.bounded(),
{
    assert(-350_000 <= dir.x * KNIFE_REACH <= 350_000 && -350_000 <= dir.y * KNIFE_REACH
        <= 350_000) by (nonlinear_arith)
        requires
            dir.within(10_000),
            KNIFE_REACH == 35,
    ;
    pos.plus(dir.times(KNIFE_REACH))
}

/// The player's part of a tick. Returns whether a roll started.
pub fn tick_player(state: &mut GameState, input: &Input) -> (roll_started: bool)
    requires
        old(state)@.wf(),
    ensures
        final(state)@ == spec_tick_player(old(state)@, *input),
        roll_started == starts_roll(old(state)@.player_state(), input.roll),
        final(state)@.wf(),
{
    let mut roll_started: bool = false;
    let before: PlayerState = state.player_state();
    if before == PlayerState::Walk || before == PlayerState::Recover {
        state.player_dir = direction(input.up, input.left, input.down, input.right);
        if input.roll && before != PlayerState::Recover {
            state.player_rolling_until = state.tick + PLAYER_ROLL_TICKS;
            roll_started = true;
        }
    }
    let speed_mul: i32 = speed(state.player_state());
    state.player_pos = moved_player(state.player_pos, state.player_dir, speed_mul);
    proof {
        let pre = old(state)@;
        let post = state@;
        assert(post == GameView {
            player_dir: post.player_dir,
            player_rolling_until: post.player_rolling_until,
            player_pos: post.player_pos,
            ..pre
        });
        lemma_wf_frame(pre, post);
    }
    roll_started
}

/// Places the knife.
pub fn tick_knife(state: &mut GameState)
    requires
        old(state)@.wf(),
    ensures
        final(state)@ == spec_tick_knife(old(state)@),
        old(state).player_dir.is_zero() ==> final(state).knife_dir == old(state).knife_dir,
        !final(state).knife_dir.is_zero(),
        final(state)@.wf(),
{
    if state.player_dir.x != 0 || state.player_dir.y != 0 {
        state.knife_dir = state.player_dir;
    }
    state.knife_pos = knife_position(state.player_pos, state.knife_dir);
    proof {
        let pre = old(state)@;
        let post = state@;
        assert(post == GameView { knife_dir: post.knife_dir, knife_pos: post.knife_pos, ..pre });
        lemma_wf_frame(pre, post);
    }
}

} // verus!
