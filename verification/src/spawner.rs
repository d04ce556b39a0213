//! The spawner: when a wave is due, how many enemies it brings, and where
//! they appear.

use vstd::prelude::*;
use crate::bread::{Bread, BREADS_MAX};
use crate::grape::{Grape, GRAPES_MAX};
use crate::lemon::{Lemon, LEMONS_MAX};
use crate::random::{gen_range, is_spawn_pos, rand_spawn_pos};
use crate::state::{lemma_wf_frame, GameState, GameView};
use crate::waves::{can_be_wave, next_wave, Wave};

verus! {

/// The fewest ticks between two waves.
pub const TICKS_BETWEEN_WAVES_MIN: i32 = 180;

/// The most ticks between two waves.
pub const TICKS_BETWEEN_WAVES_MAX: i32 = 300;

/// `after` is `before` with new entities added at its end: `asked` of them,
/// or as many as still fit under `cap`.
pub open spec fn grown_by<T>(before: Seq<T>, after: Seq<T>, asked: int, cap: int) -> bool {
    &&& after.len() == if before.len() + asked <= cap {
        before.len() + asked
    } else if before.len() <= cap {
        cap
    } else {
        before.len() as int
    }
    &&& after.take(before.len() as int) == before
}

/// A wave is due in this state.
pub open spec fn wave_due(v: GameView) -> bool {
    v.tick >= v.next_wave_at_tick
}

/// `post` is `pre` after a wave has spawned that asked for `lemons` lemons,
/// `grapes` grapes and `breads` breads.
///
/// The wave counter has moved on by one and the next wave is due between
/// `TICKS_BETWEEN_WAVES_MIN` and `TICKS_BETWEEN_WAVES_MAX` ticks from now.
/// Of each kind the new enemies stand behind the old ones; requests beyond
/// the kind's cap are dropped. Every new enemy is as its kind spawns it, at
/// a spawn position that keeps away from the player.
pub open spec fn wave_spawned(
    pre: GameView,
    post: GameView,
    lemons: int,
    grapes: int,
    breads: int,
) -> bool {
    &&& post.next_wave_num == pre.next_wave_num + 1
    &&& pre.tick + TICKS_BETWEEN_WAVES_MIN <= post.next_wave_at_tick <= pre.tick
        + TICKS_BETWEEN_WAVES_MAX
    &&& grown_by(pre.lemons, post.lemons, lemons, LEMONS_MAX as int)
    &&& grown_by(pre.grapes, post.grapes, grapes, GRAPES_MAX as int)
    &&& grown_by(pre.breads, post.breads, breads, BREADS_MAX as int)
    &&& forall|i: int|
        pre.lemons.len() <= i < post.lemons.len() ==> is_spawn_pos(
            (#[trigger] post.lemons[i]).pos,
            pre.player_pos,
        ) && post.lemons[i].is_new_at(post.lemons[i].pos)
    &&& forall|i: int|
        pre.grapes.len() <= i < post.grapes.len() ==> is_spawn_pos(
            (#[trigger] post.grapes[i]).pos,
            pre.player_pos,
        ) && post.grapes[i].is_new_at(post.grapes[i].pos)
    &&& forall|i: int|
        pre.breads.len() <= i < post.breads.len() ==> (#[trigger] post.breads[i]).is_new_for(
            pre.player_pos,
        )
    &&& post == GameView {
        next_wave_num: post.next_wave_num,
        next_wave_at_tick: post.next_wave_at_tick,
        lemons: post.lemons,
        grapes: post.grapes,
        breads: post.breads,
        ..pre
    }
}

/// `post` can follow from `pre` by the spawner's part of a tick: nothing
/// changes while no wave is due; otherwise the wave with the number that
/// `pre` holds is spawned, with a count of each kind inside the range that
/// the wave gives for it.
pub open spec fn spawner_outcome(pre: GameView, post: GameView) -> bool {
    if !wave_due(pre) {
        post == pre
    } else {
        exists|w: Wave, lemons: int, grapes: int, breads: int|
            {
                &&& #[trigger] can_be_wave(pre.next_wave_num as int, w)
                &&& w.lemons.0 <= lemons <= w.lemons.1
                &&& w.grapes.0 <= grapes <= w.grapes.1
                &&& w.breads.0 <= breads <= w.breads.1
                &&& #[trigger] wave_spawned(pre, post, lemons, grapes, breads)
            }
    }
}

impl GameState {
    /// Spawns one lemon away from the player, unless `LEMONS_MAX` are alive.
    pub fn spawn_lemon(&mut self)
        requires
            old(self).player_pos.bounded(),
        ensures
            final(self)@ == (GameView { lemons: final(self)@.lemons, ..old(self)@ }),
            grown_by(old(self)@.lemons, final(self)@.lemons, 1, LEMONS_MAX as int),
            old(self).lemons.len() < LEMONS_MAX ==> is_spawn_pos(
                final(self)@.lemons.last().pos,
                old(self).player_pos,
            ) && final(self)@.lemons.last().is_new_at(final(self)@.lemons.last().pos),
    {
        if self.lemons.len() >= LEMONS_MAX {
            assert(self.lemons@.take(self.lemons@.len() as int) =~= self.lemons@);
            return ;
        }
        let new_lemon: Lemon = Lemon::new(rand_spawn_pos(self.player_pos));
        self.lemons.push(new_lemon);
        assert(self.lemons@.take(old(self).lemons@.len() as int) =~= old(self).lemons@);
    }

    /// Spawns one grape away from the player, unless `GRAPES_MAX` are alive.
    pub fn spawn_grape(&mut self)
        requires
            old(self).player_pos.bounded(),
        ensures
            final(self)@ == (GameView { grapes: final(self)@.grapes, ..old(self)@ }),
            grown_by(old(self)@.grapes, final(self)@.grapes, 1, GRAPES_MAX as int),
            old(self).grapes.len() < GRAPES_MAX ==> is_spawn_pos(
                final(self)@.grapes.last().pos,
                old(self).player_pos,
            ) && final(self)@.grapes.last().is_new_at(final(self)@.grapes.last().pos),
    {
        if self.grapes.len() >= GRAPES_MAX {
            assert(self.grapes@.take(self.grapes@.len() as int) =~= self.grapes@);
            return ;
        }
        let new_grape: Grape = Grape::new(rand_spawn_pos(self.player_pos));
        self.grapes.push(new_grape);
        assert(self.grapes@.take(old(self).grapes@.len() as int) =~= old(self).grapes@);
    }

    /// Spawns one bread away from the player, unless `BREADS_MAX` are alive.
    pub fn spawn_bread(&mut self)
        requires
            old(self).player_pos.bounded(),
        ensures
            final(self)@ == (GameView { breads: final(self)@.breads, ..old(self)@ }),
            grown_by(old(self)@.breads, final(self)@.breads, 1, BREADS_MAX as int),
            old(self).breads.len() < BREADS_MAX ==> final(self)@.breads.last().is_new_for(
                old(self).player_pos,
            ) && final(self)@.breads.last().wf(),
    {
        if self.breads.len() >= BREADS_MAX {
            assert(self.breads@.take(self.breads@.len() as int) =~= self.breads@);
            return ;
        }
        let new_bread: Bread = Bread::new(self.player_pos);
        self.breads.push(new_bread);
        assert(self.breads@.take(old(self).breads@.len() as int) =~= old(self).breads@);
    }
}

/// The spawner's part of a tick: when a wave is due it fetches the wave,
/// moves the wave counter on, draws the tick of the next wave and the number
/// of enemies of each kind, and spawns them.
pub fn tick_spawner(state: &mut GameState)
    requires
        old(state)@.wf(),
    ensures
        spawner_outcome(old(state)@, final(state)@),
        final(state)@.wf(),
{
    if state.tick < state.next_wave_at_tick {
        return ;
    }
    let nw: Wave = next_wave(state.next_wave_num);
    state.next_wave_num = state.next_wave_num + 1;
    state.next_wave_at_tick = state.tick + gen_range(
        TICKS_BETWEEN_WAVES_MIN,
        TICKS_BETWEEN_WAVES_MAX,
    );
    let num_lemons: i32 = gen_range(nw.lemons.0 as i32, nw.lemons.1 as i32);
    let num_grapes: i32 = gen_range(nw.grapes.0 as i32, nw.grapes.1 as i32);
    let num_breads: i32 = gen_range(nw.breads.0 as i32, nw.breads.1 as i32);
    let ghost timed = state@;
    proof {
        lemma_wf_frame(old(state)@, timed);
        assert(timed.lemons.take(timed.lemons.len() as int) =~= timed.lemons);
        assert(timed.grapes.take(timed.grapes.len() as int) =~= timed.grapes);
        assert(timed.breads.take(timed.breads.len() as int) =~= timed.breads);
    }

    let mut n: i32 = 0;
    while n < num_lemons
        invariant
            0 <= n <= num_lemons,
            timed.wf(),
            state@ == (GameView { lemons: state@.lemons, ..timed }),
            grown_by(timed.lemons, state@.lemons, n as int, LEMONS_MAX as int),
            forall|i: int|
                timed.lemons.len() <= i < state@.lemons.len() ==> is_spawn_pos(
                    (#[trigger] state@.lemons[i]).pos,
                    timed.player_pos,
                ) && state@.lemons[i].is_new_at(state@.lemons[i].pos),
        decreases num_lemons - n,
    {
        let ghost before = state@.lemons;
        state.spawn_lemon();
        proof {
            assert(state@.lemons.take(timed.lemons.len() as int) =~= before.take(
                timed.lemons.len() as int,
            )) by {
                assert(state@.lemons.take(before.len() as int) == before);
            }
            assert forall|i: int| timed.lemons.len() <= i < state@.lemons.len() implies is_spawn_pos(
                (#[trigger] state@.lemons[i]).pos,
                timed.player_pos,
            ) && state@.lemons[i].is_new_at(state@.lemons[i].pos) by {
                if i < before.len() {
                    assert(state@.lemons.take(before.len() as int)[i] == state@.lemons[i]);
                }
            }
        }
        n = n + 1;
    }
    let ghost with_lemons = state@;

    n = 0;
    while n < num_grapes
        invariant
            0 <= n <= num_grapes,
            with_lemons.player_pos.bounded(),
            state@ == (GameView { grapes: state@.grapes, ..with_lemons }),
            grown_by(with_lemons.grapes, state@.grapes, n as int, GRAPES_MAX as int),
            forall|i: int|
                with_lemons.grapes.len() <= i < state@.grapes.len() ==> is_spawn_pos(
                    (#[trigger] state@.grapes[i]).pos,
                    with_lemons.player_pos,
                ) && state@.grapes[i].is_new_at(state@.grapes[i].pos),
        decreases num_grapes - n,
    {
        let ghost before = state@.grapes;
        state.spawn_grape();
        proof {
            assert(state@.grapes.take(with_lemons.grapes.len() as int) =~= before.take(
                with_lemons.grapes.len() as int,
            )) by {
                assert(state@.grapes.take(before.len() as int) == before);
            }
            assert forall|i: int|
                with_lemons.grapes.len() <= i < state@.grapes.len() implies is_spawn_pos(
                (#[trigger] state@.grapes[i]).pos,
                with_lemons.player_pos,
            ) && state@.grapes[i].is_new_at(state@.grapes[i].pos) by {
                if i < before.len() {
                    assert(state@.grapes.take(before.len() as int)[i] == state@.grapes[i]);
                }
            }
        }
        n = n + 1;
    }
    let ghost with_grapes = state@;

    n = 0;
    while n < num_breads
        invariant
            0 <= n <= num_breads,
            with_grapes.player_pos.bounded(),
            state@ == (GameView { breads: state@.breads, ..with_grapes }),
            grown_by(with_grapes.breads, state@.breads, n as int, BREADS_MAX as int),
            forall|i: int|
                with_grapes.breads.len() <= i < state@.breads.len() ==> (
                #[trigger] state@.breads[i]).is_new_for(with_grapes.player_pos)
                    && state@.breads[i].wf(),
        decreases num_breads - n,
    {
        let ghost before = state@.breads;
        state.spawn_bread();
        proof {
            assert(state@.breads.take(with_grapes.breads.len() as int) =~= before.take(
                with_grapes.breads.len() as int,
            )) by {
                assert(state@.breads.take(before.len() as int) == before);
            }
            assert forall|i: int|
                with_grapes.breads.len() <= i < state@.breads.len() implies (
            #[trigger] state@.breads[i]).is_new_for(with_grapes.player_pos)
                && state@.breads[i].wf() by {
                if i < before.len() {
                    assert(state@.breads.take(before.len() as int)[i] == state@.breads[i]);
                }
            }
        }
        n = n + 1;
    }
    proof {
        let pre = old(state)@;
        let post = state@;
        assert(wave_spawned(pre, post, num_lemons as int, num_grapes as int, num_breads as int));
        assert forall|i: int| 0 <= i < post.lemons.len() implies (#[trigger] post.lemons[i]).wf() by {
            if i < pre.lemons.len() {
                assert(post.lemons.take(pre.lemons.len() as int)[i] == post.lemons[i]);
            }
        }
        assert forall|i: int| 0 <= i < post.grapes.len() implies (#[trigger] post.grapes[i]).wf() by {
            if i < pre.grapes.len() {
                assert(post.grapes.take(pre.grapes.len() as int)[i] == post.grapes[i]);
            }
        }
        assert forall|i: int| 0 <= i < post.breads.len() implies (#[trigger] post.breads[i]).wf() by {
            if i < pre.breads.len() {
                assert(post.breads.take(pre.breads.len() as int)[i] == post.breads[i]);
            }
        }
    }
}

} // verus!
