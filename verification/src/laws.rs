//! What holds of the rules whatever the commands are: the laws that tie
//! the steps of a session together.

use vstd::prelude::*;
use crate::actions::{CommandView, OutcomeView};
use crate::messages::{
    AnimationMessageView, ConnectView, CreateTurnMessage, GameTickerMessageView,
    MutationMessageView, PollPlayerDeathMessageView,
};
use crate::models::GameView;
use crate::registry::{
    after_countdown, card_choice_step, connect_step, connect_target, handled, lemma_lobby_wf,
    opens_session, ready_for, seat_draws_valid, sessions_wf, stepped, with_lobby, SeatDrawsView,
    Sessions,
};
use crate::rules::{
    active_humans, advance_is_stale, after_advance, after_animation, after_deal, after_move,
    after_seat, after_tick, after_vote, lemma_advance_keeps_wf, lemma_frame_keeps_wf,
    lemma_move_keeps_wf, lemma_seat_keeps_wf, lemma_vote_keeps_wf, move_accepted, move_actions,
    same_frame, vote_accepted, vote_counted,
};

verus! {

/// Whether `h` can be a later state of the session `g`: a game that has
/// started stays started; the turn is the same or, in a started game, one
/// higher; nobody leaves the list of participants; and every participant
/// keeps its number, name, secret and square, its kind, and stays out of the
/// game once it is out.
pub open spec fn session_evolves(g: GameView, h: GameView) -> bool {
    &&& g.game_started ==> h.game_started
    &&& h.turn_index == g.turn_index || (g.game_started && h.turn_index == g.turn_index + 1)
    &&& g.players.len() <= h.players.len()
    &&& forall|i: int|
        0 <= i < g.players.len() ==> {
            &&& (#[trigger] h.players[i]).id == g.players[i].id
            &&& h.players[i].username == g.players[i].username
            &&& h.players[i].private_key == g.players[i].private_key
            &&& h.players[i].pos == g.players[i].pos
            &&& h.players[i].is_ai == g.players[i].is_ai
            &&& !g.players[i].active ==> !h.players[i].active
        }
}

/// Whether every session that is there before and after has evolved.
pub open spec fn evolves(s: Sessions, next: Sessions) -> bool {
    forall|id: usize|
        s.contains_key(id) && next.contains_key(id) ==> session_evolves(s[id], #[trigger] next[id])
}

/// In a well-formed session no two participants start on the same square.
pub proof fn law_squares_apart(g: GameView, i: int, j: int)
    requires
        g.wf(),
        0 <= i < g.players.len(),
        0 <= j < g.players.len(),
        i != j,
    ensures
        g.seat(i) != g.seat(j),
{
    if i < j {
        assert(g.seat(i) != g.seat(j));
    } else {
        assert(g.seat(j) != g.seat(i));
    }
}

/// Seating never gives a square out twice: after a request for a seat, any
/// two participants of the session stand on different squares.
pub proof fn law_seating_keeps_squares_apart(
    g: GameView,
    c: ConnectView,
    game_id: usize,
    private_key: Seq<char>,
    facing: u8,
    i: int,
    j: int,
)
    requires
        g.wf(),
        0 <= i < j < after_seat(g, c, game_id, private_key, facing).players.len(),
    ensures
        after_seat(g, c, game_id, private_key, facing).seat(i) != after_seat(
            g,
            c,
            game_id,
            private_key,
            facing,
        ).seat(j),
{
    lemma_seat_keeps_wf(g, c, game_id, private_key, facing);
    law_squares_apart(after_seat(g, c, game_id, private_key, facing), i, j);
}

/// In a well-formed session that has not started the turn is 0.
pub proof fn law_lobby_turn_is_zero(g: GameView)
    requires
        g.wf(),
        !g.game_started,
    ensures
        g.turn_index == 0,
{
}

/// An advance that is not stale raises the turn of a started game by
/// exactly one, and starts a lobby without raising its turn; a stale one
/// leaves the turn alone.
pub proof fn law_advance_counts_turns(g: GameView, m: CreateTurnMessage)
    requires
        g.wf(),
        g.turn_index < usize::MAX,
    ensures
        advance_is_stale(g, m) ==> after_advance(g, m).turn_index == g.turn_index && after_advance(
            g,
            m,
        ).game_started == g.game_started,
        !advance_is_stale(g, m) && g.game_started ==> after_advance(g, m).turn_index
            == g.turn_index + 1,
        !advance_is_stale(g, m) && !g.game_started ==> after_advance(g, m).turn_index == 0
            && after_advance(g, m).game_started,
{
}

/// A move is accepted exactly if it names a seat, carries the secret of
/// that seat, and comes from a computer player or plays a card that is on
/// offer to the seat. A move that is not accepted leaves the session as it
/// was, and whatever it is answered with goes to its seat alone.
pub proof fn law_move_acceptance(g: GameView, m: MutationMessageView)
    ensures
        move_accepted(g, m) <==> m.player_id < g.players.len() && g.players[m.player_id as int].private_key
            == m.pk && (g.players[m.player_id as int].is_ai || (
        g.players[m.player_id as int].card_options is Some
            && g.players[m.player_id as int].card_options->0.contains(m.mutation.card_type))),
        !move_accepted(g, m) ==> after_move(g, m) == g,
        !move_accepted(g, m) ==> forall|k: int|
            0 <= k < move_actions(g, m).len() ==> (#[trigger] move_actions(g, m)[k]) is Send
                && move_actions(g, m)[k]->Send_player_id == m.player_id,
        move_accepted(g, m) ==> after_move(g, m).players[m.player_id as int].previous_choices
            == g.players[m.player_id as int].previous_choices.push(m.mutation) && after_move(
            g,
            m,
        ).players[m.player_id as int].card_options is None,
{
}

/// An accepted vote puts its target out of the game exactly if the votes
/// against it, this one included, are at least half of the persons still in
/// the game, rounded up; it changes nobody else's standing, and a vote that
/// is not accepted changes nothing.
pub proof fn law_vote_quorum(g: GameView, v: PollPlayerDeathMessageView)
    requires
        g.wf(),
    ensures
        !vote_accepted(g, v) ==> after_vote(g, v) == g,
        vote_accepted(g, v) ==> (!after_vote(g, v).players[v.other_id as int].active <==> vote_counted(
            g,
            v,
        )[v.other_id as int].been_death_voted_for >= (active_humans(vote_counted(g, v)) + 1)
            / 2),
        vote_accepted(g, v) ==> forall|i: int|
            0 <= i < g.players.len() && i != v.other_id ==> (#[trigger] after_vote(
                g,
                v,
            ).players[i]).active == g.players[i].active,
{
}

/// A session evolves into itself.
pub proof fn lemma_evolves_refl(g: GameView)
    ensures
        session_evolves(g, g),
{
}

/// Stepping one session to a later state of itself makes the sessions
/// evolve and keeps them well-formed, if the later state is.
pub proof fn lemma_step_evolves(s: Sessions, id: usize, h: GameView)
    requires
        sessions_wf(s),
        s.contains_key(id) ==> session_evolves(s[id], h) && h.wf(),
    ensures
        evolves(s, stepped(s, id, h)),
        sessions_wf(stepped(s, id, h)),
{
    let next = stepped(s, id, h);
    assert forall|k: usize| s.contains_key(k) && next.contains_key(k) implies session_evolves(
        s[k],
        #[trigger] next[k],
    ) by {
        if k != id {
            lemma_evolves_refl(s[k]);
        }
    }
    assert forall|k: usize| next.contains_key(k) implies (#[trigger] next[k]).wf() by {
        if k != id {
            assert(s[k].wf());
        }
    }
}

/// A tick leaves a well-formed session well-formed.
pub proof fn lemma_tick_keeps_wf(g: GameView, t: GameTickerMessageView)
    requires
        g.wf(),
    ensures
        after_tick(g, t).wf(),
{
    assert(same_frame(g, after_tick(g, t)));
    lemma_frame_keeps_wf(g, after_tick(g, t));
}

/// A report of finished animations leaves a well-formed session
/// well-formed.
pub proof fn lemma_animation_keeps_wf(g: GameView, a: AnimationMessageView)
    requires
        g.wf(),
    ensures
        after_animation(g, a).wf(),
{
    assert(same_frame(g, after_animation(g, a)));
    lemma_frame_keeps_wf(g, after_animation(g, a));
}

/// Dealing leaves a well-formed session well-formed.
pub proof fn lemma_deal_keeps_wf(g: GameView, cards: Seq<(u8, u8, u8)>)
    requires
        g.wf(),
    ensures
        after_deal(g, cards).wf(),
{
    assert(same_frame(g, after_deal(g, cards)));
    lemma_frame_keeps_wf(g, after_deal(g, cards));
}

/// Whatever command is handled, on sessions that are well-formed: the
/// sessions stay well-formed, and every session that is still there has
/// evolved. So a game that has started never goes back to the lobby, the
/// turn of a session never goes down and goes up by one at a time, and a
/// participant who is out of the game never comes back.
pub proof fn law_commands_evolve(
    weights: Seq<u32>,
    s: Sessions,
    cmd: CommandView,
    next: Sessions,
    out: OutcomeView,
)
    requires
        sessions_wf(s),
        ready_for(s, cmd),
        handled(weights, s, cmd, next, out),
    ensures
        sessions_wf(next),
        evolves(s, next),
{
    match cmd {
        CommandView::Connect(c) => {
            let draws = choose|draws: SeatDrawsView|
                seat_draws_valid(weights, s, c, draws) && next == #[trigger] connect_step(
                    s,
                    c,
                    draws,
                );
            match connect_target(s, c, draws) {
                Some(id) => {
                    let opened = with_lobby(s, c, draws);
                    if opens_session(s, c) {
                        lemma_lobby_wf(draws.positions);
                    }
                    assert(sessions_wf(opened)) by {
                        assert forall|k: usize| opened.contains_key(k) implies (
                        #[trigger] opened[k]).wf() by {
                            if s.contains_key(k) {
                                assert(s[k].wf());
                            }
                        }
                    }
                    assert(opened.contains_key(id));
                    let h = after_seat(opened[id], c, id, draws.private_key, draws.facing);
                    lemma_seat_keeps_wf(opened[id], c, id, draws.private_key, draws.facing);
                    assert(session_evolves(opened[id], h));
                    lemma_step_evolves(opened, id, h);
                    assert(next == stepped(opened, id, h));
                    assert forall|k: usize|
                        s.contains_key(k) && next.contains_key(k) implies session_evolves(
                        s[k],
                        #[trigger] next[k],
                    ) by {
                        assert(opened.contains_key(k) && opened[k] == s[k]);
                        assert(session_evolves(opened[k], next[k]));
                    }
                },
                None => {
                    lemma_step_evolves(s, 0, s[0]);
                    assert forall|k: usize|
                        s.contains_key(k) && next.contains_key(k) implies session_evolves(
                        s[k],
                        #[trigger] next[k],
                    ) by {
                        lemma_evolves_refl(s[k]);
                    }
                },
            }
        },
        CommandView::Mutation(m) => {
            if s.contains_key(m.game_id) {
                lemma_move_keeps_wf(s[m.game_id], m);
            }
            lemma_step_evolves(s, m.game_id, after_move(s[m.game_id], m));
        },
        CommandView::CountDown(m) => {
            if s.contains_key(m.game_id) {
                crate::server::lemma_countdown_keeps_wf(s[m.game_id]);
            }
            lemma_step_evolves(s, m.game_id, after_countdown(s[m.game_id]));
        },
        CommandView::CreateTurn(m) => {
            if s.contains_key(m.game_id) {
                lemma_advance_keeps_wf(s[m.game_id], m);
            }
            lemma_step_evolves(s, m.game_id, after_advance(s[m.game_id], m));
        },
        CommandView::CardChoice(m) => {
            if s.contains_key(m.game_id) {
                let cards = choose|cards: Seq<(u8, u8, u8)>|
                    next == #[trigger] card_choice_step(s, m, cards);
                lemma_deal_keeps_wf(s[m.game_id], cards);
                lemma_step_evolves(s, m.game_id, after_deal(s[m.game_id], cards));
            } else {
                lemma_unchanged_evolves(s);
            }
        },
        CommandView::Animation(a) => {
            if s.contains_key(a.game_id) {
                lemma_animation_keeps_wf(s[a.game_id], a);
            }
            lemma_step_evolves(s, a.game_id, after_animation(s[a.game_id], a));
        },
        CommandView::PollPlayerDeath(v) => {
            if s.contains_key(v.game_id) {
                lemma_vote_keeps_wf(s[v.game_id], v);
            }
            lemma_step_evolves(s, v.game_id, after_vote(s[v.game_id], v));
        },
        CommandView::GameTicker(t) => {
            if s.contains_key(t.game_id) {
                lemma_tick_keeps_wf(s[t.game_id], t);
            }
            lemma_step_evolves(s, t.game_id, after_tick(s[t.game_id], t));
        },
        CommandView::DeleteGame(m) => {
            lemma_subset_evolves(s, next);
        },
        CommandView::BroadcastObj(_) => {
            lemma_unchanged_evolves(s);
        },
        CommandView::BroadcastStr(_) => {
            lemma_unchanged_evolves(s);
        },
        CommandView::Prune(_) => {
            lemma_subset_evolves(s, next);
        },
        CommandView::FullClean(_) => {
            lemma_subset_evolves(s, next);
        },
        CommandView::Disconnect(_) => {
            lemma_unchanged_evolves(s);
        },
    }
}

/// Sessions that stay as they are evolve.
pub proof fn lemma_unchanged_evolves(s: Sessions)
    requires
        sessions_wf(s),
    ensures
        evolves(s, s),
{
    assert forall|k: usize| s.contains_key(k) implies session_evolves(s[k], #[trigger] s[k]) by {
        lemma_evolves_refl(s[k]);
    }
}

/// Taking sessions away makes the rest evolve and keeps it well-formed.
pub proof fn lemma_subset_evolves(s: Sessions, next: Sessions)
    requires
        sessions_wf(s),
        forall|k: usize| #[trigger] next.contains_key(k) ==> s.contains_key(k) && next[k] == s[k],
    ensures
        evolves(s, next),
        sessions_wf(next),
{
    assert forall|k: usize| s.contains_key(k) && next.contains_key(k) implies session_evolves(
        s[k],
        #[trigger] next[k],
    ) by {
        lemma_evolves_refl(s[k]);
    }
    assert forall|k: usize| next.contains_key(k) implies (#[trigger] next[k]).wf() by {
        assert(s[k].wf());
    }
}

} // verus!
