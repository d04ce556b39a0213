//! The collision pass: what the knife kills, and what kills the player.

use vstd::prelude::*;
use crate::body::{any_touches, any_touching, lemma_survivors, remove_touching, survivors, Body};
use crate::bullet::{in_flight, lemma_in_flight, remove_strays};
use crate::geom::Vec2;
use crate::player::{PlayerState, PLAYER_RADIUS};
use crate::state::{GameState, GameView};

verus! {

/// Radius of the knife's hit disc (25 world units).
pub const KNIFE_RADIUS: i32 = 250_000;

/// The knife kills something in this state: it touches a lemon, a grape or
/// a bread.
pub open spec fn spec_enemy_dies(v: GameView) -> bool {
    ||| any_touches(v.lemons, v.knife_pos, KNIFE_RADIUS as int)
    ||| any_touches(v.grapes, v.knife_pos, KNIFE_RADIUS as int)
    ||| any_touches(v.breads, v.knife_pos, KNIFE_RADIUS as int)
}

/// The state after the knife has killed: every lemon, grape and bread whose
/// body touches the knife's disc is gone, and so is every bullet outside the
/// world rectangle. The knife does not harm bullets.
pub open spec fn spec_enemy_deaths(v: GameView) -> GameView {
    GameView {
        lemons: survivors(v.lemons, v.knife_pos, KNIFE_RADIUS as int),
        grapes: survivors(v.grapes, v.knife_pos, KNIFE_RADIUS as int),
        breads: survivors(v.breads, v.knife_pos, KNIFE_RADIUS as int),
        bullets: in_flight(v.bullets),
        ..v
    }
}

/// The player's body touches a lemon, a bullet or a bread. Grapes do no harm
/// by touch.
pub open spec fn spec_player_touched(v: GameView) -> bool {
    ||| any_touches(v.lemons, v.player_pos, PLAYER_RADIUS as int)
    ||| any_touches(v.bullets, v.player_pos, PLAYER_RADIUS as int)
    ||| any_touches(v.breads, v.player_pos, PLAYER_RADIUS as int)
}

/// The player dies in this state: it is not rolling, and its body touches
/// something that kills. A rolling player cannot be harmed.
pub open spec fn spec_player_dies(v: GameView) -> bool {
    v.player_state() != PlayerState::Roll && spec_player_touched(v)
}

/// Removes the enemies that the knife touches and the bullets that have left
/// the world. Returns whether any enemy died, however many did.
pub fn tick_check_enemy_death(state: &mut GameState) -> (any_died: bool)
    requires
        old(state)@.wf(),
    ensures
        final(state)@ == spec_enemy_deaths(old(state)@),
        any_died == spec_enemy_dies(old(state)@),
        forall|i: int|
            0 <= i < final(state).bullets.len() ==> (#[trigger] final(state).bullets[i]).spec_in_world(),
        final(state)@.wf(),
{
    let kill_zone: Vec2 = state.knife_pos;
    proof {
        lemma_survivors(state.lemons@, kill_zone, KNIFE_RADIUS as int);
        lemma_survivors(state.grapes@, kill_zone, KNIFE_RADIUS as int);
        lemma_survivors(state.breads@, kill_zone, KNIFE_RADIUS as int);
        lemma_in_flight(state.bullets@);
    }
    let any_lemons_died: bool = remove_touching(&mut state.lemons, kill_zone, KNIFE_RADIUS);
    let any_grapes_died: bool = remove_touching(&mut state.grapes, kill_zone, KNIFE_RADIUS);
    let any_breads_died: bool = remove_touching(&mut state.breads, kill_zone, KNIFE_RADIUS);
    remove_strays(&mut state.bullets);
    proof {
        assert forall|i: int| 0 <= i < state.lemons.len() implies (#[trigger] state.lemons[i]).wf() by {
            assert(old(state).lemons@.contains(state.lemons@[i]));
        }
        assert forall|i: int| 0 <= i < state.grapes.len() implies (#[trigger] state.grapes[i]).wf() by {
            assert(old(state).grapes@.contains(state.grapes@[i]));
        }
        assert forall|i: int| 0 <= i < state.breads.len() implies (#[trigger] state.breads[i]).wf() by {
            assert(old(state).breads@.contains(state.breads@[i]));
        }
        assert forall|i: int| 0 <= i < state.bullets.len() implies (#[trigger] state.bullets[i]).wf()
            && state.bullets[i].spec_in_world() by {
            let b = in_flight(old(state).bullets@)[i];
            assert(b == state.bullets@[i]);
            assert(old(state).bullets@.contains(b));
            assert(b.spec_in_world());
            let j = choose|j: int| 0 <= j < old(state).bullets@.len() && old(state).bullets@[j] == b;
            assert(old(state)@.bullets[j].wf());
        }
    }
    any_lemons_died || any_grapes_died || any_breads_died
}

/// Whether the player's body touches anything that kills: a lemon, a bullet
/// or a bread. A body that touches the player's in a single point kills.
pub fn check_player_death(state: &GameState) -> (dead: bool)
    requires
        state@.wf(),
    ensures
        dead == spec_player_touched(state@),
{
    let kill_zone: Vec2 = state.player_pos;
    proof {
        assert forall|i: int| 0 <= i < state.lemons.len() implies (
        #[trigger] state.lemons[i]).body_pos().bounded() by {
            assert(state@.lemons[i].wf());
        }
        assert forall|i: int| 0 <= i < state.bullets.len() implies (
        #[trigger] state.bullets[i]).body_pos().bounded() by {
            assert(state@.bullets[i].wf());
        }
        assert forall|i: int| 0 <= i < state.breads.len() implies (
        #[trigger] state.breads[i]).body_pos().bounded() by {
            assert(state@.breads[i].wf());
        }
    }
    if any_touching(&state.lemons, kill_zone, PLAYER_RADIUS) {
        return true;
    }
    if any_touching(&state.bullets, kill_zone, PLAYER_RADIUS) {
        return true;
    }
    any_touching(&state.breads, kill_zone, PLAYER_RADIUS)
}

} // verus!
