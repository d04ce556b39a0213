//! One tick of the game: the pipeline of its parts, the events it reports,
//! and what holds of every run of ticks.

use vstd::prelude::*;
use crate::combat::{
    check_player_death, spec_enemy_deaths, spec_enemy_dies, spec_player_dies,
    spec_player_touched, tick_check_enemy_death,
};
use crate::control::{spec_tick_knife, spec_tick_player, tick_knife, tick_player};
use crate::enemies::{enemies_outcome, tick_enemies};
use crate::player::{starts_roll, Input, PlayerState};
use crate::spawner::{spawner_outcome, tick_spawner};
use crate::state::{initial_view, lemma_wf_frame, GameState, GameView, TICK_LIMIT};

verus! {

/// What happened in one tick, for whoever plays the sounds.
#[derive(Clone, Copy, Debug, PartialEq, Eq, Structural)]
pub struct TickEvents {
    /// The game was over and has been started afresh.
    pub restarted: bool,
    /// The player started a roll.
    pub roll_started: bool,
    /// The knife killed at least one enemy.
    pub enemy_died: bool,
    /// Number of bullets that grapes fired.
    pub shots_fired: usize,
    /// Number of breads that gave their warning.
    pub charge_warnings: usize,
}

/// The events of a tick in which nothing happened.
pub open spec fn no_events() -> TickEvents {
    TickEvents {
        restarted: false,
        roll_started: false,
        enemy_died: false,
        shots_fired: 0,
        charge_warnings: 0,
    }
}

/// `post` and `events` can follow from `pre` by one tick with the keys
/// `input`.
///
/// Once the game is over a tick does nothing, but that the restart key
/// starts a new game. Otherwise the tick counter moves on by one, and then,
/// in this order: the player moves, the knife is placed, the knife kills,
/// a wave spawns if one is due, the enemies move and shoot, and the game is
/// over if the player dies in the state so reached.
pub open spec fn tick_outcome(
    pre: GameView,
    input: Input,
    post: GameView,
    events: TickEvents,
) -> bool {
    if pre.game_over {
        &&& post == if input.restart {
            initial_view()
        } else {
            pre
        }
        &&& events == TickEvents { restarted: input.restart, ..no_events() }
    } else {
        let started = GameView { tick: (pre.tick + 1) as i32, ..pre };
        let moved = spec_tick_player(started, input);
        let armed = spec_tick_knife(moved);
        let cleared = spec_enemy_deaths(armed);
        exists|spawned: GameView, acted: GameView|
            {
                &&& #[trigger] spawner_outcome(cleared, spawned)
                &&& #[trigger] enemies_outcome(
                    spawned,
                    acted,
                    events.shots_fired as int,
                    events.charge_warnings as int,
                )
                &&& post == GameView { game_over: spec_player_dies(acted), ..acted }
                &&& !events.restarted
                &&& events.roll_started == starts_roll(started.player_state(), input.roll)
                &&& events.enemy_died == spec_enemy_dies(armed)
            }
    }
}

/// One tick of the game.
pub fn tick(state: &mut GameState, input: &Input) -> (events: TickEvents)
    requires
        old(state)@.wf(),
        old(state).game_over || old(state).tick < TICK_LIMIT,
    ensures
        tick_outcome(old(state)@, *input, final(state)@, events),
        final(state)@.wf(),
{
    if state.game_over {
        if input.restart {
            *state = GameState::default();
        }
        return TickEvents {
            restarted: input.restart,
            roll_started: false,
            enemy_died: false,
            shots_fired: 0,
            charge_warnings: 0,
        };
    }
    state.tick = state.tick + 1;
    let ghost started = state@;
    proof {
        assert(started == GameView { tick: (old(state)@.tick + 1) as i32, ..old(state)@ });
        lemma_wf_frame(old(state)@, started);
    }
    let roll_started: bool = tick_player(state, input);
    tick_knife(state);
    let enemy_died: bool = tick_check_enemy_death(state);
    let ghost cleared = state@;
    tick_spawner(state);
    let ghost spawned = state@;
    let (shots_fired, charge_warnings) = tick_enemies(state);
    let ghost acted = state@;
    if state.player_state() != PlayerState::Roll && check_player_death(state) {
        state.game_over = true;
    }
    let events = TickEvents {
        restarted: false,
        roll_started,
        enemy_died,
        shots_fired,
        charge_warnings,
    };
    proof {
        // The states between the random parts of the pipeline bear the
        // outcome out.
        assert(spawner_outcome(cleared, spawned));
        assert(enemies_outcome(
            spawned,
            acted,
            events.shots_fired as int,
            events.charge_warnings as int,
        ));
        assert(state@ == GameView { game_over: spec_player_dies(acted), ..acted });
    }
    events
}

/// `states` is a run of the game: each state follows from the one before it
/// by one tick, with the keys `inputs[i]` held in the tick from `states[i]`
/// to `states[i + 1]`.
pub open spec fn is_run(states: Seq<GameView>, inputs: Seq<Input>) -> bool {
    &&& states.len() == inputs.len() + 1
    &&& forall|i: int|
        0 <= i < inputs.len() ==> can_tick_to(#[trigger] states[i], inputs[i], states[i + 1])
}

/// `post` can follow from `pre` by one tick with the keys `input`, whatever
/// the tick's events.
pub open spec fn can_tick_to(pre: GameView, input: Input, post: GameView) -> bool {
    exists|events: TickEvents| #[trigger] tick_outcome(pre, input, post, events)
}

/// A tick that leaves the player without a direction leaves the knife's
/// direction as it was. A restart is no such tick: it puts the knife back
/// to where a new game has it.
pub proof fn lemma_idle_tick_keeps_knife_dir(
    pre: GameView,
    input: Input,
    post: GameView,
    events: TickEvents,
)
    requires
        tick_outcome(pre, input, post, events),
        post.player_dir.is_zero(),
        !(pre.game_over && input.restart),
    ensures
        post.knife_dir == pre.knife_dir,
{
}

/// While the player has no direction the knife keeps its own: through any
/// number of ticks in a row that leave the player's direction zero, and of
/// which none is a restart, the knife's direction stays what it was.
pub proof fn lemma_idle_run_keeps_knife_dir(states: Seq<GameView>, inputs: Seq<Input>, n: int)
    requires
        is_run(states, inputs),
        0 <= n < states.len(),
        forall|i: int| 0 < i <= n ==> (#[trigger] states[i]).player_dir.is_zero(),
        forall|i: int| 0 <= i < n ==> !((#[trigger] states[i]).game_over && inputs[i].restart),
    ensures
        states[n].knife_dir == states[0].knife_dir,
    decreases n,
{
    if n > 0 {
        lemma_idle_run_keeps_knife_dir(states, inputs, n - 1);
        let pre = states[n - 1];
        let input = inputs[n - 1];
        let post = states[n];
        assert(can_tick_to(pre, input, states[n - 1 + 1]));
        let events = choose|events: TickEvents| tick_outcome(pre, input, post, events);
        lemma_idle_tick_keeps_knife_dir(pre, input, post, events);
    }
}

/// The knife's direction is never zero: a tick keeps it so.
pub proof fn lemma_knife_dir_never_zero(
    pre: GameView,
    input: Input,
    post: GameView,
    events: TickEvents,
)
    requires
        tick_outcome(pre, input, post, events),
        !pre.knife_dir.is_zero(),
    ensures
        !post.knife_dir.is_zero(),
{
}

/// Rolling shields the player and nothing else: a tick that ends with the
/// player rolling does not end the game, whatever touches the player, while
/// the knife has killed in that tick whatever it touched.
pub proof fn lemma_rolling_player_survives(
    pre: GameView,
    input: Input,
    post: GameView,
    events: TickEvents,
)
    requires
        tick_outcome(pre, input, post, events),
        !pre.game_over,
        post.player_rolling_until > post.tick,
    ensures
        !post.game_over,
        events.enemy_died == spec_enemy_dies(
            spec_tick_knife(
                spec_tick_player(GameView { tick: (pre.tick + 1) as i32, ..pre }, input),
            ),
        ),
{
}

/// A tick ends the game exactly when it ends with the player not rolling
/// and touched, at the tick's end, by a lemon, a bullet or a bread.
pub proof fn lemma_death_rule(pre: GameView, input: Input, post: GameView, events: TickEvents)
    requires
        pre.wf(),
        pre.tick < TICK_LIMIT,
        tick_outcome(pre, input, post, events),
        !pre.game_over,
    ensures
        post.game_over <==> post.player_rolling_until <= post.tick && spec_player_touched(post),
        post.tick == pre.tick + 1,
{
}

} // verus!
