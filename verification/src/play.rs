//! The run of a game: key events between frames, and frame after frame of
//! play, with the laws that hold over such a run.
//!
//! A run goes as the game loop drives it: any key events read since the last
//! frame (`Game::handle_key`), then, once a frame is due, a whole frame of
//! play (`Game::play_frame`).

use vstd::prelude::*;
use crate::game::{
    at, coins_shown, command_spec, frame_result, frame_safe, key_effect, outcome_of, played, Command,
    GameView, Key, Outcome, law_frame_keeps_score,
};
use crate::ghost::Monster;
use crate::player::Player;

verus! {

/// The key event leaves the game (`q` quits, Tab shows the winning screen).
pub open spec fn ends_play(key: Key, released: bool) -> bool {
    command_spec(key, released) == Command::Quit || command_spec(key, released) == Command::Finish
}

/// The game after a series of key events, the first one first.
pub open spec fn after_keys(g: GameView, events: Seq<(Key, bool)>) -> GameView
    decreases events.len(),
{
    if events.len() == 0 {
        g
    } else {
        key_effect(after_keys(g, events.drop_last()), events.last().0, events.last().1)
    }
}

/// The direction that the last direction key of `events` asks for, or `d0`
/// when none does.
pub open spec fn last_steer(events: Seq<(Key, bool)>, d0: u8) -> u8
    decreases events.len(),
{
    if events.len() == 0 {
        d0
    } else {
        match command_spec(events.last().0, events.last().1) {
            Command::Steer(d) => d,
            _ => last_steer(events.drop_last(), d0),
        }
    }
}

/// One turn of the game loop from `(g, m)`: the key events read, none of
/// which leaves the game, then a whole frame of play ending in `(h, n)`, on
/// the inputs `Game::play_frame` accepts.
pub open spec fn loop_step(
    g: GameView,
    m: (Monster, Monster, Monster, Monster),
    events: Seq<(Key, bool)>,
    obs0: Seq<Seq<u8>>,
    coins0: Seq<Seq<u8>>,
    h: GameView,
    n: (Monster, Monster, Monster, Monster),
    outcome: Outcome,
    caught: bool,
) -> bool {
    &&& forall|i: int| 0 <= i < events.len() ==> !ends_play(#[trigger] events[i].0, events[i].1)
    &&& frame_safe(after_keys(g, events), m)
    &&& g.speed_compensation && g.player.frames == u32::MAX ==> g.is_finished
    &&& played(after_keys(g, events), m, obs0, coins0, h, n, outcome, caught)
}

/// The number of catches among the frames of a run.
pub open spec fn catches(caught: Seq<bool>) -> nat
    decreases caught.len(),
{
    if caught.len() == 0 {
        0
    } else {
        catches(caught.drop_last()) + if caught.last() { 1nat } else { 0nat }
    }
}

/// Key events only ever queue a direction: after a series of them the queued
/// direction is the one the last direction key released asked for (or stays
/// when none did), and nothing else changes.
pub proof fn law_keys_reach_the_queue(g: GameView, events: Seq<(Key, bool)>)
    ensures
        after_keys(g, events) == (GameView {
            player: Player { direction_queue: last_steer(events, g.player.direction_queue), ..g.player },
            ..g
        }),
    decreases events.len(),
{
    if events.len() > 0 {
        law_keys_reach_the_queue(g, events.drop_last());
    } else {
        assert(g.player == Player { direction_queue: g.player.direction_queue, ..g.player });
    }
}

/// One turn of the game loop loses a heart exactly when a ghost catches the
/// player, and then restarts the player and sends the ghosts home. It ends
/// the game exactly when the last heart is gone, and with a win exactly when
/// the frame drawn before it showed no coin and a heart is left. When play
/// goes on, the frame counter counts one frame (when it runs) and the game is
/// finished exactly when the frame just drawn shows no coin.
pub proof fn law_one_turn_of_play(
    g: GameView,
    m: (Monster, Monster, Monster, Monster),
    events: Seq<(Key, bool)>,
    obs0: Seq<Seq<u8>>,
    coins0: Seq<Seq<u8>>,
    h: GameView,
    n: (Monster, Monster, Monster, Monster),
    outcome: Outcome,
    caught: bool,
)
    requires
        loop_step(g, m, events, obs0, coins0, h, n, outcome, caught),
    ensures
        g.player.hearts > 0,
        h.player.hearts == g.player.hearts - (if caught { 1int } else { 0int }),
        caught ==> at(h.player.position, 24, 18) && n.0.position == [21u8, 11u8]
            && n.1.position == [21u8, 11u8] && n.2.position == [21u8, 11u8]
            && n.3.position == [21u8, 11u8],
        outcome == Outcome::GameOver <==> h.player.hearts == 0,
        outcome == Outcome::Won <==> (g.is_finished && h.player.hearts > 0),
        outcome == Outcome::Continue ==> {
            &&& h.player.frames == g.player.frames + (if g.speed_compensation { 1int } else { 0int })
            &&& h.is_finished == (coins_shown(h, n.0.position, n.1.position, n.2.position, n.3.position) == 0)
        },
        outcome != Outcome::Continue ==> h.player.frames == g.player.frames,
{
    let k = after_keys(g, events);
    law_keys_reach_the_queue(g, events);
    let mid = choose|mid: GameView|
        {
            &&& #[trigger] frame_result(k, m, obs0, coins0, mid, n, caught)
            &&& outcome == outcome_of(mid)
            &&& h == if outcome == Outcome::Continue {
                crate::game::ticked(crate::game::drawn(mid, n.0.position, n.1.position, n.2.position, n.3.position))
            } else {
                mid
            }
        };
    law_frame_keeps_score(k, m, obs0, coins0, mid, n, caught);
    if outcome == Outcome::Continue {
        let f1 = crate::game::frame_spec(h, n.0.position, n.1.position, n.2.position, n.3.position);
        let f2 = crate::game::frame_spec(mid, n.0.position, n.1.position, n.2.position, n.3.position);
        assert(f1 =~~= f2);
    }
}

/// Hearts over a run that goes on frame after frame from 3 hearts: after
/// each frame they are 3 less the catches so far, so they stay between 1 and
/// 3 and never grow, and the run has seen at most two catches.
pub proof fn law_hearts_over_a_game(
    states: Seq<(GameView, (Monster, Monster, Monster, Monster))>,
    events: Seq<Seq<(Key, bool)>>,
    caught: Seq<bool>,
    obs0: Seq<Seq<u8>>,
    coins0: Seq<Seq<u8>>,
)
    requires
        states.len() == caught.len() + 1,
        events.len() == caught.len(),
        states[0].0.player.hearts == 3,
        forall|i: int|
            0 <= i < caught.len() ==> loop_step(
                #[trigger] states[i].0,
                states[i].1,
                events[i],
                obs0,
                coins0,
                states[i + 1].0,
                states[i + 1].1,
                Outcome::Continue,
                caught[i],
            ),
    ensures
        forall|i: int|
            0 <= i < states.len() ==> #[trigger] states[i].0.player.hearts == 3 - catches(caught.take(i))
                && 1 <= states[i].0.player.hearts <= 3,
        catches(caught) <= 2,
    decreases caught.len(),
{
    if caught.len() == 0 {
        assert(caught.take(0) =~= Seq::<bool>::empty());
    } else {
        let k = caught.len() - 1;
        let s2 = states.drop_last();
        let e2 = events.drop_last();
        let c2 = caught.drop_last();
        assert forall|i: int| 0 <= i < c2.len() implies loop_step(
            #[trigger] s2[i].0,
            s2[i].1,
            e2[i],
            obs0,
            coins0,
            s2[i + 1].0,
            s2[i + 1].1,
            Outcome::Continue,
            c2[i],
        ) by {
            assert(s2[i] == states[i] && s2[i + 1] == states[i + 1]);
            assert(loop_step(states[i].0, states[i].1, events[i], obs0, coins0, states[i + 1].0,
                states[i + 1].1, Outcome::Continue, caught[i]));
        }
        law_hearts_over_a_game(s2, e2, c2, obs0, coins0);
        assert(loop_step(states[k].0, states[k].1, events[k], obs0, coins0, states[k + 1].0,
            states[k + 1].1, Outcome::Continue, caught[k]));
        law_one_turn_of_play(states[k].0, states[k].1, events[k], obs0, coins0, states[k + 1].0,
            states[k + 1].1, Outcome::Continue, caught[k]);
        assert(s2[k].0 == states[k].0);
        assert(caught.take(k + 1) =~= caught);
        assert(caught.take(k + 1).drop_last() =~= c2);
        assert(c2.take(k) =~= c2);
        assert forall|i: int| 0 <= i < states.len() implies #[trigger] states[i].0.player.hearts == 3
            - catches(caught.take(i)) && 1 <= states[i].0.player.hearts <= 3 by {
            if i < states.len() - 1 {
                assert(s2[i] == states[i]);
                assert(c2.take(i) =~= caught.take(i));
            }
        }
    }
}

/// The game ends on the third catch: after a run that went on frame after
/// frame from 3 hearts, the next turn of the loop ends the game exactly when
/// it brings the third catch.
pub proof fn law_game_ends_on_third_catch(
    states: Seq<(GameView, (Monster, Monster, Monster, Monster))>,
    events: Seq<Seq<(Key, bool)>>,
    caught: Seq<bool>,
    obs0: Seq<Seq<u8>>,
    coins0: Seq<Seq<u8>>,
    last_events: Seq<(Key, bool)>,
    h: GameView,
    n: (Monster, Monster, Monster, Monster),
    outcome: Outcome,
    last_caught: bool,
)
    requires
        states.len() == caught.len() + 1,
        events.len() == caught.len(),
        states[0].0.player.hearts == 3,
        forall|i: int|
            0 <= i < caught.len() ==> loop_step(
                #[trigger] states[i].0,
                states[i].1,
                events[i],
                obs0,
                coins0,
                states[i + 1].0,
                states[i + 1].1,
                Outcome::Continue,
                caught[i],
            ),
        loop_step(states.last().0, states.last().1, last_events, obs0, coins0, h, n, outcome, last_caught),
    ensures
        outcome == Outcome::GameOver <==> (catches(caught) == 2 && last_caught),
{
    law_hearts_over_a_game(states, events, caught, obs0, coins0);
    let k = caught.len() as int;
    assert(caught.take(k) =~= caught);
    assert(states[k].0.player.hearts == 3 - catches(caught.take(k)));
    law_one_turn_of_play(states.last().0, states.last().1, last_events, obs0, coins0, h, n, outcome, last_caught);
}

} // verus!
