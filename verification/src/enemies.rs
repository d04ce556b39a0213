//! The enemies' part of a tick: every lemon, grape, bullet and bread lives
//! through one tick of its own.

use vstd::prelude::*;
use crate::bread::Bread;
use crate::bullet::Bullet;
use crate::geom::Vec2;
use crate::grape::{is_shot_at, Grape};
use crate::lemon::Lemon;
use crate::state::{GameState, GameView};

verus! {

/// The test for firing in a tick with the player at `player_pos`, as a
/// predicate on grapes.
pub open spec fn fires_at(player_pos: Vec2) -> spec_fn(Grape) -> bool {
    |g: Grape| g.spec_fires(player_pos)
}

/// The grapes that fire in a tick with the player at `player_pos`, in their
/// order.
pub open spec fn firing(grapes: Seq<Grape>, player_pos: Vec2) -> Seq<Grape> {
    grapes.filter(fires_at(player_pos))
}

/// The test for giving the warning in a tick, as a predicate on breads.
pub open spec fn gives_warning() -> spec_fn(Bread) -> bool {
    |b: Bread| b.spec_is_idle() && b.spec_warns()
}

/// The breads that give their warning in a tick, in their order.
pub open spec fn warning(breads: Seq<Bread>) -> Seq<Bread> {
    breads.filter(gives_warning())
}

/// `b` is a bullet that `grape` fired at a player at `player_pos` in this
/// tick: the shot, moved on by its first step.
pub open spec fn is_flown_shot(b: Bullet, grape: Grape, player_pos: Vec2) -> bool {
    exists|shot: Bullet| #[trigger] is_shot_at(shot, grape, player_pos) && b == shot.spec_tick()
}

/// `post` can follow from `pre` by the enemies' part of a tick in which
/// `fired` bullets were fired and `warned` breads gave their warning.
///
/// Every lemon, grape and bread has lived through one tick of its own, in
/// its place in its list. Every bullet of `pre` has moved on by one step.
/// Behind them stand the bullets fired in this tick, one for each grape that
/// fires, in the order of the grapes, each moved on by its first step.
pub open spec fn enemies_outcome(pre: GameView, post: GameView, fired: int, warned: int) -> bool {
    &&& post.lemons.len() == pre.lemons.len()
    &&& post.grapes.len() == pre.grapes.len()
    &&& post.breads.len() == pre.breads.len()
    &&& forall|i: int|
        0 <= i < pre.lemons.len() ==> (#[trigger] pre.lemons[i]).ticks_to(
            post.lemons[i],
            pre.player_pos,
        )
    &&& forall|i: int|
        0 <= i < pre.grapes.len() ==> (#[trigger] pre.grapes[i]).ticks_to(post.grapes[i])
    &&& forall|i: int|
        0 <= i < pre.breads.len() ==> (#[trigger] pre.breads[i]).ticks_to(
            post.breads[i],
            pre.player_pos,
        )
    &&& fired == firing(pre.grapes, pre.player_pos).len()
    &&& warned == warning(pre.breads).len()
    &&& post.bullets.len() == pre.bullets.len() + fired
    &&& forall|i: int|
        0 <= i < pre.bullets.len() ==> #[trigger] post.bullets[i] == pre.bullets[i].spec_tick()
    &&& forall|i: int|
        pre.bullets.len() <= i < post.bullets.len() ==> is_flown_shot(
            #[trigger] post.bullets[i],
            firing(pre.grapes, pre.player_pos)[i - pre.bullets.len()],
            pre.player_pos,
        )
    &&& post == GameView {
        lemons: post.lemons,
        grapes: post.grapes,
        bullets: post.bullets,
        breads: post.breads,
        ..pre
    }
}

/// One tick of every lemon.
fn tick_lemons(lemons: &mut Vec<Lemon>, player_pos: Vec2)
    requires
        forall|i: int| 0 <= i < old(lemons).len() ==> (#[trigger] old(lemons)[i]).wf(),
        player_pos.in_world(),
    ensures
        final(lemons).len() == old(lemons).len(),
        forall|i: int|
            0 <= i < old(lemons).len() ==> (#[trigger] old(lemons)[i]).ticks_to(
                final(lemons)[i],
                player_pos,
            ),
        forall|i: int| 0 <= i < final(lemons).len() ==> (#[trigger] final(lemons)[i]).wf(),
{
    let mut i: usize = 0;
    while i < lemons.len()
        invariant
            0 <= i <= lemons.len(),
            lemons.len() == old(lemons).len(),
            player_pos.in_world(),
            forall|j: int| 0 <= j < i ==> (#[trigger] old(lemons)[j]).ticks_to(lemons[j], player_pos),
            forall|j: int| i <= j < lemons.len() ==> #[trigger] lemons[j] == old(lemons)[j],
            forall|j: int| 0 <= j < old(lemons).len() ==> (#[trigger] old(lemons)[j]).wf(),
            forall|j: int| 0 <= j < i ==> (#[trigger] lemons[j]).wf(),
        decreases lemons.len() - i,
    {
        let mut lemon: Lemon = lemons[i];
        lemon.tick(player_pos);
        lemons.set(i, lemon);
        i = i + 1;
    }
}

/// One tick of every grape. Bullets that are fired are pushed to the end of
/// `bullets`. Returns how many were fired.
fn tick_grapes(
    grapes: &mut Vec<Grape>,
    player_pos: Vec2,
    bullets: &mut Vec<Bullet>,
) -> (fired: usize)
    requires
        forall|i: int| 0 <= i < old(grapes).len() ==> (#[trigger] old(grapes)[i]).wf(),
        player_pos.in_world(),
    ensures
        final(grapes).len() == old(grapes).len(),
        forall|i: int|
            0 <= i < old(grapes).len() ==> (#[trigger] old(grapes)[i]).ticks_to(final(grapes)[i]),
        forall|i: int| 0 <= i < final(grapes).len() ==> (#[trigger] final(grapes)[i]).wf(),
        fired == firing(old(grapes)@, player_pos).len(),
        final(bullets).len() == old(bullets).len() + fired,
        forall|i: int| 0 <= i < old(bullets).len() ==> #[trigger] final(bullets)[i] == old(bullets)[i],
        forall|i: int|
            old(bullets).len() <= i < final(bullets).len() ==> {
                &&& is_shot_at(
                    #[trigger] final(bullets)[i],
                    firing(old(grapes)@, player_pos)[i - old(bullets).len()],
                    player_pos,
                )
                &&& final(bullets)[i].is_launched()
            },
{
    let mut i: usize = 0;
    let mut fired: usize = 0;
    let ghost start: int = bullets.len() as int;
    proof {
        reveal(Seq::filter);
        assert(old(grapes)@.take(0) =~= Seq::<Grape>::empty());
    }
    while i < grapes.len()
        invariant
            0 <= i <= grapes.len(),
            grapes.len() == old(grapes).len(),
            player_pos.in_world(),
            start == old(bullets).len(),
            forall|j: int| 0 <= j < i ==> (#[trigger] old(grapes)[j]).ticks_to(grapes[j]),
            forall|j: int| i <= j < grapes.len() ==> #[trigger] grapes[j] == old(grapes)[j],
            forall|j: int| 0 <= j < old(grapes).len() ==> (#[trigger] old(grapes)[j]).wf(),
            forall|j: int| 0 <= j < i ==> (#[trigger] grapes[j]).wf(),
            fired == firing(old(grapes)@.take(i as int), player_pos).len(),
            fired <= i,
            bullets.len() == start + fired,
            forall|j: int| 0 <= j < start ==> #[trigger] bullets[j] == old(bullets)[j],
            forall|j: int|
                start <= j < bullets.len() ==> {
                    &&& is_shot_at(
                        #[trigger] bullets[j],
                        firing(old(grapes)@.take(i as int), player_pos)[j - start],
                        player_pos,
                    )
                    &&& bullets[j].is_launched()
                },
        decreases grapes.len() - i,
    {
        let ghost shots_before = bullets@;
        let ghost firing_before = firing(old(grapes)@.take(i as int), player_pos);
        let mut grape: Grape = grapes[i];
        let shot: bool = grape.tick(player_pos, bullets);
        grapes.set(i, grape);
        proof {
            let now = old(grapes)@.take(i + 1);
            assert(now.drop_last() =~= old(grapes)@.take(i as int));
            assert(now.last() == old(grapes)[i as int]);
            reveal(Seq::filter);
            let firing_now = firing(now, player_pos);
            assert(firing_now == if shot {
                firing_before.push(old(grapes)[i as int])
            } else {
                firing_before
            });
            assert forall|j: int| start <= j < bullets.len() implies {
                &&& is_shot_at(#[trigger] bullets[j], firing_now[j - start], player_pos)
                &&& bullets[j].is_launched()
            } by {
                if j < shots_before.len() {
                    if shot {
                        assert(bullets@.drop_last()[j] == bullets[j]);
                    }
                    assert(bullets[j] == shots_before[j]);
                } else {
                    assert(bullets[j] == bullets@.last());
                }
            }
            assert forall|j: int| 0 <= j < start implies #[trigger] bullets[j] == old(bullets)[j] by {
                if shot {
                    assert(bullets@.drop_last()[j] == bullets[j]);
                }
                assert(bullets[j] == shots_before[j]);
            }
        }
        if shot {
            fired = fired + 1;
        }
        i = i + 1;
    }
    proof {
        assert(old(grapes)@.take(grapes.len() as int) =~= old(grapes)@);
    }
    fired
}

/// One tick of every bullet.
fn tick_bullets(bullets: &mut Vec<Bullet>)
    requires
        forall|i: int| 0 <= i < old(bullets).len() ==> (#[trigger] old(bullets)[i]).is_launched(),
    ensures
        final(bullets).len() == old(bullets).len(),
        forall|i: int|
            0 <= i < old(bullets).len() ==> (#[trigger] final(bullets)[i])
                == old(bullets)[i].spec_tick(),
        forall|i: int| 0 <= i < final(bullets).len() ==> (#[trigger] final(bullets)[i]).wf(),
{
    let mut i: usize = 0;
    while i < bullets.len()
        invariant
            0 <= i <= bullets.len(),
            bullets.len() == old(bullets).len(),
            forall|j: int| 0 <= j < i ==> #[trigger] bullets[j] == old(bullets)[j].spec_tick(),
            forall|j: int| 0 <= j < i ==> (#[trigger] bullets[j]).wf(),
            forall|j: int| i <= j < bullets.len() ==> #[trigger] bullets[j] == old(bullets)[j],
            forall|j: int| 0 <= j < old(bullets).len() ==> (#[trigger] old(bullets)[j]).is_launched(),
        decreases bullets.len() - i,
    {
        let mut bullet: Bullet = bullets[i];
        assert(bullet == old(bullets)[i as int]);
        bullet.tick();
        bullets.set(i, bullet);
        i = i + 1;
    }
}

/// One tick of every bread. Returns how many gave their warning.
fn tick_breads(breads: &mut Vec<Bread>, player_pos: Vec2) -> (warned: usize)
    requires
        forall|i: int| 0 <= i < old(breads).len() ==> (#[trigger] old(breads)[i]).wf(),
        player_pos.in_world(),
    ensures
        final(breads).len() == old(breads).len(),
        forall|i: int|
            0 <= i < old(breads).len() ==> (#[trigger] old(breads)[i]).ticks_to(
                final(breads)[i],
                player_pos,
            ),
        forall|i: int| 0 <= i < final(breads).len() ==> (#[trigger] final(breads)[i]).wf(),
        warned == warning(old(breads)@).len(),
{
    let mut i: usize = 0;
    let mut warned: usize = 0;
    proof {
        reveal(Seq::filter);
        assert(old(breads)@.take(0) =~= Seq::<Bread>::empty());
    }
    while i < breads.len()
        invariant
            0 <= i <= breads.len(),
            breads.len() == old(breads).len(),
            player_pos.in_world(),
            forall|j: int| 0 <= j < i ==> (#[trigger] old(breads)[j]).ticks_to(breads[j], player_pos),
            forall|j: int| i <= j < breads.len() ==> #[trigger] breads[j] == old(breads)[j],
            forall|j: int| 0 <= j < old(breads).len() ==> (#[trigger] old(breads)[j]).wf(),
            forall|j: int| 0 <= j < i ==> (#[trigger] breads[j]).wf(),
            warned == warning(old(breads)@.take(i as int)).len(),
            warned <= i,
        decreases breads.len() - i,
    {
        let mut bread: Bread = breads[i];
        let gave: bool = bread.tick(player_pos);
        breads.set(i, bread);
        proof {
            let now = old(breads)@.take(i + 1);
            assert(now.drop_last() =~= old(breads)@.take(i as int));
            assert(now.last() == old(breads)[i as int]);
            reveal(Seq::filter);
        }
        if gave {
            warned = warned + 1;
        }
        i = i + 1;
    }
    proof {
        assert(old(breads)@.take(breads.len() as int) =~= old(breads)@);
    }
    warned
}

/// The enemies' part of a tick: every lemon, every grape, every bullet and
/// every bread lives through one tick, in this order, so that a bullet fired
/// in this tick already makes its first step. Returns the number of bullets
/// fired and the number of breads that gave their warning.
pub fn tick_enemies(state: &mut GameState) -> (counts: (usize, usize))
    requires
        old(state)@.wf(),
        forall|i: int|
            0 <= i < old(state).bullets.len() ==> (#[trigger] old(state).bullets[i]).spec_in_world(),
    ensures
        enemies_outcome(old(state)@, final(state)@, counts.0 as int, counts.1 as int),
        final(state)@.wf(),
{
    let player_pos: Vec2 = state.player_pos;
    tick_lemons(&mut state.lemons, player_pos);
    let fired: usize = tick_grapes(&mut state.grapes, player_pos, &mut state.bullets);
    let ghost loaded = state.bullets@;
    proof {
        assert forall|i: int| 0 <= i < loaded.len() implies (#[trigger] loaded[i]).is_launched() by {
            if i < old(state).bullets.len() {
                assert(old(state)@.bullets[i].wf());
            }
        }
    }
    tick_bullets(&mut state.bullets);
    let warned: usize = tick_breads(&mut state.breads, player_pos);
    proof {
        let pre = old(state)@;
        let post = state@;
        assert forall|i: int| pre.bullets.len() <= i < post.bullets.len() implies is_flown_shot(
            #[trigger] post.bullets[i],
            firing(pre.grapes, pre.player_pos)[i - pre.bullets.len()],
            pre.player_pos,
        ) by {
            assert(is_shot_at(
                loaded[i],
                firing(pre.grapes, pre.player_pos)[i - pre.bullets.len()],
                pre.player_pos,
            ));
            assert(post.bullets[i] == loaded[i].spec_tick());
        }
        assert forall|i: int| 0 <= i < pre.bullets.len() implies #[trigger] post.bullets[i]
            == pre.bullets[i].spec_tick() by {
            assert(loaded[i] == pre.bullets[i]);
        }
    }
    (fired, warned)
}

} // verus!
