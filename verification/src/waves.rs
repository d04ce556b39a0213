//! The wave director: which enemies, and how many, each wave brings.
//!
//! A fixed run of hand-written waves introduces the game. Once it is used up
//! every further wave is drawn at random from a small late-game pool, with
//! repeats allowed.

use vstd::prelude::*;
use crate::random::gen_range;

verus! {

/// One wave: for each kind of enemy the least and the greatest number to
/// spawn.
#[derive(Clone, Copy, Debug, PartialEq, Eq)]
pub struct Wave {
    pub lemons: (u8, u8),
    pub grapes: (u8, u8),
    pub breads: (u8, u8),
}

/// Number of hand-written introductory waves.
pub const SET_WAVE_COUNT: usize = 10;

/// Number of waves in the late-game pool.
pub const LATE_GAME_WAVE_COUNT: usize = 5;

impl Wave {
    /// In every pair the least number is at most the greatest.
    pub open spec fn wf(self) -> bool {
        &&& self.lemons.0 <= self.lemons.1
        &&& self.grapes.0 <= self.grapes.1
        &&& self.breads.0 <= self.breads.1
    }

    /// A wave of lemons only.
    pub fn lems(min: u8, max: u8) -> (w: Wave)
        ensures
            w == spec_lems(min, max),
    {
        Wave { lemons: (min, max), grapes: (0, 0), breads: (0, 0) }
    }
}

impl Default for Wave {
    /// The empty wave.
    fn default() -> (w: Wave)
        ensures
            w == (Wave { lemons: (0, 0), grapes: (0, 0), breads: (0, 0) }),
    {
        Wave { lemons: (0, 0), grapes: (0, 0), breads: (0, 0) }
    }
}

/// A wave of lemons only.
pub open spec fn spec_lems(min: u8, max: u8) -> Wave {
    Wave { lemons: (min, max), grapes: (0, 0), breads: (0, 0) }
}

/// The introductory waves, in the order in which they come.
pub open spec fn set_waves() -> Seq<Wave> {
    seq![
        spec_lems(1, 1),
        spec_lems(3, 3),
        spec_lems(4, 6),
        spec_lems(4, 6),
        Wave { lemons: (4, 4), grapes: (1, 2), breads: (1, 1) },
        Wave { lemons: (1, 2), grapes: (3, 3), breads: (1, 1) },
        spec_lems(1, 1),
        spec_lems(1, 1),
        spec_lems(4, 6),
        Wave { lemons: (0, 0), grapes: (5, 5), breads: (3, 3) },
    ]
}

/// The pool that late-game waves are drawn from.
pub open spec fn late_game_waves() -> Seq<Wave> {
    seq![
        Wave { lemons: (10, 20), grapes: (0, 1), breads: (0, 1) },
        Wave { lemons: (0, 3), grapes: (5, 10), breads: (0, 1) },
        Wave { lemons: (0, 0), grapes: (0, 2), breads: (5, 10) },
        Wave { lemons: (2, 5), grapes: (0, 4), breads: (0, 2) },
        Wave { lemons: (2, 5), grapes: (0, 1), breads: (0, 1) },
    ]
}

/// The introductory wave at `index`.
pub fn set_wave(index: usize) -> (w: Wave)
    requires
        index < SET_WAVE_COUNT,
    ensures
        w == set_waves()[index as int],
        w.wf(),
{
    match index {
        0 => Wave::lems(1, 1),
        1 => Wave::lems(3, 3),
        2 => Wave::lems(4, 6),
        3 => Wave::lems(4, 6),
        4 => Wave { lemons: (4, 4), grapes: (1, 2), breads: (1, 1) },
        5 => Wave { lemons: (1, 2), grapes: (3, 3), breads: (1, 1) },
        6 => Wave::lems(1, 1),
        7 => Wave::lems(1, 1),
        8 => Wave::lems(4, 6),
        _ => Wave { lemons: (0, 0), grapes: (5, 5), breads: (3, 3) },
    }
}

/// The wave of the late-game pool at `index`.
pub fn late_game_wave(index: usize) -> (w: Wave)
    requires
        index < LATE_GAME_WAVE_COUNT,
    ensures
        w == late_game_waves()[index as int],
        w.wf(),
{
    match index {
        0 => Wave { lemons: (10, 20), grapes: (0, 1), breads: (0, 1) },
        1 => Wave { lemons: (0, 3), grapes: (5, 10), breads: (0, 1) },
        2 => Wave { lemons: (0, 0), grapes: (0, 2), breads: (5, 10) },
        3 => Wave { lemons: (2, 5), grapes: (0, 4), breads: (0, 2) },
        _ => Wave { lemons: (2, 5), grapes: (0, 1), breads: (0, 1) },
    }
}

/// `wave_num` counts one of the introductory waves.
pub open spec fn is_set_wave(wave_num: int) -> bool {
    0 <= wave_num < SET_WAVE_COUNT
}

/// Index into the late-game pool for a draw: the draw itself, moved into the
/// pool where it lies outside.
pub open spec fn pool_index(draw: int) -> int {
    if draw < 0 {
        0
    } else if draw >= LATE_GAME_WAVE_COUNT {
        LATE_GAME_WAVE_COUNT - 1
    } else {
        draw
    }
}

/// The wave with number `wave_num`, given the draw that picks among the
/// late-game pool once the introductory waves are used up.
pub open spec fn spec_wave_for(wave_num: int, draw: int) -> Wave {
    if is_set_wave(wave_num) {
        set_waves()[wave_num]
    } else {
        late_game_waves()[pool_index(draw)]
    }
}

/// The wave with number `wave_num`, given the draw that picks among the
/// late-game pool. The draw plays no part while `wave_num` counts an
/// introductory wave.
pub fn wave_for(wave_num: i32, draw: i32) -> (w: Wave)
    ensures
        w == spec_wave_for(wave_num as int, draw as int),
        w.wf(),
{
    if 0 <= wave_num && wave_num < 10 {
        set_wave(wave_num as usize)
    } else if draw < 0 {
        late_game_wave(0)
    } else if draw >= 5 {
        late_game_wave(4)
    } else {
        late_game_wave(draw as usize)
    }
}

/// `w` can be the wave with number `wave_num`: the introductory wave of that
/// number, or, past the introduction, any wave of the late-game pool.
pub open spec fn can_be_wave(wave_num: int, w: Wave) -> bool {
    if is_set_wave(wave_num) {
        w == set_waves()[wave_num]
    } else {
        exists|j: int| 0 <= j < LATE_GAME_WAVE_COUNT && w == #[trigger] late_game_waves()[j]
    }
}

/// The wave with number `wave_num`: the introductory wave of that number, or,
/// past the introduction (and for a negative number), a wave drawn at random
/// from the late-game pool.
pub fn next_wave(wave_num: i32) -> (w: Wave)
    ensures
        can_be_wave(wave_num as int, w),
        is_set_wave(wave_num as int) ==> w == set_waves()[wave_num as int],
        !is_set_wave(wave_num as int) ==> exists|j: int|
            0 <= j < LATE_GAME_WAVE_COUNT && w == #[trigger] late_game_waves()[j],
        w.wf(),
{
    if 0 <= wave_num && wave_num < 10 {
        set_wave(wave_num as usize)
    } else {
        let draw: i32 = gen_range(0, 5);
        let w: Wave = wave_for(wave_num, draw);
        assert(w == late_game_waves()[pool_index(draw as int)]);
        w
    }
}

/// No wave of the late-game pool is an introductory wave, so a wave past the
/// introduction is never mistaken for one of it.
pub proof fn lemma_pools_disjoint(i: int, j: int)
    requires
        0 <= i < SET_WAVE_COUNT,
        0 <= j < LATE_GAME_WAVE_COUNT,
    ensures
        set_waves()[i] != late_game_waves()[j],
{
}

} // verus!
