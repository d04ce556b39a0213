//! The player's rules: the state it is in, the direction that the keys give
//! it, and how fast each state moves.

use vstd::prelude::*;
use crate::geom::{Vec2, UNIT};

verus! {

/// Length of either component of a diagonal direction: 0.7071 of the unit, so
/// that walking diagonally is no faster than walking along an axis.
pub const DIAG_SPEED: i32 = 7_071;

/// Radius of the player's body (20 world units).
pub const PLAYER_RADIUS: i32 = 200_000;

/// Distance moved per tick and unit of direction while walking.
pub const PLAYER_WALK_SPEED: i32 = 2;

/// Distance moved per tick and unit of direction while rolling.
pub const PLAYER_ROLL_SPEED: i32 = 6;

/// Number of ticks that a roll lasts.
pub const PLAYER_ROLL_TICKS: i32 = 30;

/// Number of ticks after a roll in which the player stands still.
pub const PLAYER_ROLL_RECOVERY_TICKS: i32 = 20;

/// What the player is doing. It is derived from the game's counters on every
/// use and stored nowhere.
#[derive(Clone, Copy, Debug, PartialEq, Eq, Structural)]
pub enum PlayerState {
    Walk,
    Roll,
    Recover,
    Dead,
}

/// The keys that are held down in one tick.
#[derive(Clone, Copy, Debug, PartialEq, Eq, Structural)]
pub struct Input {
    pub up: bool,
    pub left: bool,
    pub down: bool,
    pub right: bool,
    pub roll: bool,
    pub restart: bool,
}

impl Input {
    /// No key held.
    pub fn none() -> (input: Input)
        ensures
            input == (Input {
                up: false,
                left: false,
                down: false,
                right: false,
                roll: false,
                restart: false,
            }),
    {
        Input { up: false, left: false, down: false, right: false, roll: false, restart: false }
    }
}

/// The player's state at tick `tick` of a game whose current or last roll
/// ends at tick `rolling_until`: dead once the game is over, whatever else
/// holds; rolling before the roll's end; recovering for
/// `PLAYER_ROLL_RECOVERY_TICKS` ticks from the roll's end; walking otherwise.
pub open spec fn spec_player_state(game_over: bool, tick: int, rolling_until: int) -> PlayerState {
    if game_over {
        PlayerState::Dead
    } else if rolling_until > tick {
        PlayerState::Roll
    } else if rolling_until + PLAYER_ROLL_RECOVERY_TICKS > tick {
        PlayerState::Recover
    } else {
        PlayerState::Walk
    }
}

/// The player's state at tick `tick` of a game whose current or last roll
/// ends at tick `rolling_until`.
pub fn player_state_at(game_over: bool, tick: i32, rolling_until: i32) -> (s: PlayerState)
    ensures
        s == spec_player_state(game_over, tick as int, rolling_until as int),
{
    if game_over {
        PlayerState::Dead
    } else if rolling_until > tick {
        PlayerState::Roll
    } else if rolling_until as i64 + PLAYER_ROLL_RECOVERY_TICKS as i64 > tick as i64 {
        PlayerState::Recover
    } else {
        PlayerState::Walk
    }
}

/// Where a pair of opposite keys pulls along its axis: towards the one that
/// is held alone, nowhere when both or neither are held.
pub open spec fn axis(towards_less: bool, towards_more: bool) -> int {
    if towards_more && !towards_less {
        1
    } else if towards_less && !towards_more {
        -1
    } else {
        0
    }
}

/// The direction that the four direction keys give. `y` grows downwards.
/// Along one axis it is a unit long; along both, each component is
/// `DIAG_SPEED` long.
pub open spec fn spec_direction(up: bool, left: bool, down: bool, right: bool) -> Vec2 {
    let h = axis(left, right);
    let v = axis(up, down);
    if h != 0 && v != 0 {
        Vec2 { x: (h * DIAG_SPEED) as i32, y: (v * DIAG_SPEED) as i32 }
    } else {
        Vec2 { x: (h * UNIT) as i32, y: (v * UNIT) as i32 }
    }
}

/// The direction that the four direction keys give.
pub fn direction(up: bool, left: bool, down: bool, right: bool) -> (dir: Vec2)
    ensures
        dir == spec_direction(up, left, down, right),
        dir.within(UNIT as int),
{
    match (up, left, down, right) {
        (true, true, false, false) => Vec2 { x: -DIAG_SPEED, y: -DIAG_SPEED },
        (false, true, true, false) => Vec2 { x: -DIAG_SPEED, y: DIAG_SPEED },
        (false, false, true, true) => Vec2 { x: DIAG_SPEED, y: DIAG_SPEED },
        (true, false, false, true) => Vec2 { x: DIAG_SPEED, y: -DIAG_SPEED },
        (true, _, false, _) => Vec2 { x: 0, y: -UNIT },
        (_, true, _, false) => Vec2 { x: -UNIT, y: 0 },
        (false, _, true, _) => Vec2 { x: 0, y: UNIT },
        (_, false, _, true) => Vec2 { x: UNIT, y: 0 },
        _ => Vec2 { x: 0, y: 0 },
    }
}

/// Distance moved per tick and unit of direction in each state.
pub open spec fn spec_speed(s: PlayerState) -> int {
    match s {
        PlayerState::Walk => PLAYER_WALK_SPEED as int,
        PlayerState::Roll => PLAYER_ROLL_SPEED as int,
        PlayerState::Recover => 0,
        PlayerState::Dead => 0,
    }
}

/// Distance moved per tick and unit of direction in each state.
pub fn speed(s: PlayerState) -> (k: i32)
    ensures
        k == spec_speed(s),
{
    match s {
        PlayerState::Dead => 0,
        PlayerState::Walk => PLAYER_WALK_SPEED,
        PlayerState::Roll => PLAYER_ROLL_SPEED,
        PlayerState::Recover => 0,
    }
}

/// Whether the keys are read in state `s`: only while walking or recovering.
pub open spec fn reads_keys(s: PlayerState) -> bool {
    s == PlayerState::Walk || s == PlayerState::Recover
}

/// Whether a roll starts in state `s` with the roll key held or not: only
/// from walking. The roll key does nothing during a roll, during the recovery
/// from one, or once dead.
pub open spec fn starts_roll(s: PlayerState, roll_key: bool) -> bool {
    roll_key && s == PlayerState::Walk
}

/// The course of a roll that starts at tick `start`: the player rolls for
/// `PLAYER_ROLL_TICKS` ticks from `start`, recovers for the
/// `PLAYER_ROLL_RECOVERY_TICKS` ticks that follow, and walks from then on.
pub proof fn lemma_roll_timeline(start: int, tick: int)
    requires
        start <= tick,
    ensures
        spec_player_state(false, tick, start + PLAYER_ROLL_TICKS) == if tick < start
            + PLAYER_ROLL_TICKS {
            PlayerState::Roll
        } else if tick < start + PLAYER_ROLL_TICKS + PLAYER_ROLL_RECOVERY_TICKS {
            PlayerState::Recover
        } else {
            PlayerState::Walk
        },
{
}

/// Death dominates: once the game is over the player is dead, whatever the
/// roll timer says.
pub proof fn lemma_dead_dominates(tick: int, rolling_until: int)
    ensures
        spec_player_state(true, tick, rolling_until) == PlayerState::Dead,
{
}

/// Diagonal movement is no faster than movement along an axis, and slower by
/// less than one coordinate step: the squared length of every diagonal
/// direction is at most the square of the unit and more than the square of
/// the unit less one.
pub proof fn lemma_no_diagonal_boost(up: bool, left: bool, down: bool, right: bool)
    requires
        axis(left, right) != 0,
        axis(up, down) != 0,
    ensures
        spec_direction(up, left, down, right).norm_sq() <= UNIT * UNIT,
        spec_direction(up, left, down, right).norm_sq() > (UNIT - 1) * (UNIT - 1),
{
    let d = spec_direction(up, left, down, right);
    assert(d.x == DIAG_SPEED || d.x == -DIAG_SPEED);
    assert(d.y == DIAG_SPEED || d.y == -DIAG_SPEED);
    assert(d.x * d.x == 49_999_041) by (nonlinear_arith)
        requires
            d.x == 7_071 || d.x == -7_071,
    ;
    assert(d.y * d.y == 49_999_041) by (nonlinear_arith)
        requires
            d.y == 7_071 || d.y == -7_071,
    ;
    assert(UNIT * UNIT == 100_000_000) by (nonlinear_arith)
        requires
            UNIT == 10_000,
    ;
    assert((UNIT - 1) * (UNIT - 1) == 99_980_001) by (nonlinear_arith)
        requires
            UNIT == 10_000,
    ;
}

/// Movement along one axis is exactly a unit long, and no keys, or keys that
/// cancel, give no movement.
pub proof fn lemma_axial_speed(up: bool, left: bool, down: bool, right: bool)
    requires
        axis(left, right) == 0 || axis(up, down) == 0,
    ensures
        (axis(left, right) != 0 || axis(up, down) != 0) ==> spec_direction(
            up,
            left,
            down,
            right,
        ).norm_sq() == UNIT * UNIT,
        (axis(left, right) == 0 && axis(up, down) == 0) ==> spec_direction(
            up,
            left,
            down,
            right,
        ).is_zero(),
{
    let d = spec_direction(up, left, down, right);
    assert(UNIT * UNIT == 100_000_000) by (nonlinear_arith)
        requires
            UNIT == 10_000,
    ;
    if axis(left, right) != 0 {
        assert(d.y == 0);
        assert(d.x * d.x == 100_000_000) by (nonlinear_arith)
            requires
                d.x == 10_000 || d.x == -10_000,
        ;
    } else if axis(up, down) != 0 {
        assert(d.x == 0);
        assert(d.y * d.y == 100_000_000) by (nonlinear_arith)
            requires
                d.y == 10_000 || d.y == -10_000,
        ;
    }
}

} // verus!
