//! All sessions of a process as one mathematical value, and what each
//! command does to it.

use vstd::prelude::*;
use crate::actions::{
    ActionView, BroadcastObjView, BroadcastStrView, CommandView, NoticeView, OutcomeView,
};
use crate::messages::{
    AnimationMessageView, CardChoiceMessage, ConnectView, CountDownMessage, CreateTurnMessage,
    DeleteGame, GameTickerMessageView, MutationMessageView, PollPlayerDeathMessageView,
};
use crate::models::{BOARD_SIZE, GameView, MAX_PLAYERS};
use crate::random::is_key;
use crate::rules::{
    active_humans, addr_ids, advance_actions, advance_reply, after_advance, after_animation,
    after_deal, after_move, after_seat, after_tick, after_vote, animation_actions, deal_actions,
    except, move_actions, seat_actions, seat_reply, tick_actions, vote_actions, TurnDrawsView,
};
use crate::text::removed_text;

verus! {

/// The sessions of a process, by identifier.
pub type Sessions = Map<usize, GameView>;

/// Whether every session is well-formed.
pub open spec fn sessions_wf(s: Sessions) -> bool {
    forall|id: usize| s.contains_key(id) ==> (#[trigger] s[id]).wf()
}

/// The sessions with one of them stepped to `h`; a session that does not
/// exist stays away.
pub open spec fn stepped(s: Sessions, id: usize, h: GameView) -> Sessions {
    if s.contains_key(id) {
        s.insert(id, h)
    } else {
        s
    }
}

/// The actions of a step, none where the session does not exist.
pub open spec fn if_present(s: Sessions, id: usize, actions: Seq<ActionView>) -> Seq<ActionView> {
    if s.contains_key(id) {
        actions
    } else {
        Seq::empty()
    }
}

/// The sessions after a move was submitted.
pub open spec fn mutation_step(s: Sessions, m: MutationMessageView) -> Sessions {
    stepped(s, m.game_id, after_move(s[m.game_id], m))
}

/// What a submitted move is answered with.
pub open spec fn mutation_outcome(s: Sessions, m: MutationMessageView) -> OutcomeView {
    OutcomeView {
        reply: m.player_id,
        actions: if_present(s, m.game_id, move_actions(s[m.game_id], m)),
    }
}

/// The sessions after a death vote.
pub open spec fn vote_step(s: Sessions, v: PollPlayerDeathMessageView) -> Sessions {
    stepped(s, v.game_id, after_vote(s[v.game_id], v))
}

/// What a death vote is answered with.
pub open spec fn vote_outcome(s: Sessions, v: PollPlayerDeathMessageView) -> OutcomeView {
    OutcomeView {
        reply: v.self_id,
        actions: if_present(s, v.game_id, vote_actions(s[v.game_id], v)),
    }
}

/// The sessions after a participant reported the end of its animations.
pub open spec fn animation_step(s: Sessions, a: AnimationMessageView) -> Sessions {
    stepped(s, a.game_id, after_animation(s[a.game_id], a))
}

/// What a report of finished animations is answered with.
pub open spec fn animation_outcome(s: Sessions, a: AnimationMessageView) -> OutcomeView {
    OutcomeView {
        reply: a.player_id,
        actions: if_present(s, a.game_id, animation_actions(s[a.game_id], a)),
    }
}

/// The sessions after a tick.
pub open spec fn tick_step(s: Sessions, t: GameTickerMessageView) -> Sessions {
    stepped(s, t.game_id, after_tick(s[t.game_id], t))
}

/// What a tick is answered with.
pub open spec fn tick_outcome(s: Sessions, t: GameTickerMessageView) -> OutcomeView {
    OutcomeView {
        reply: t.game_id,
        actions: if_present(s, t.game_id, tick_actions(s[t.game_id], t)),
    }
}

/// A session with its countdown running; a game that has started has none.
pub open spec fn after_countdown(g: GameView) -> GameView {
    if g.game_started {
        g
    } else {
        GameView { game_countdown_active: true, ..g }
    }
}

/// The sessions after the countdown of one of them was asked for.
pub open spec fn countdown_step(s: Sessions, m: CountDownMessage) -> Sessions {
    stepped(s, m.game_id, after_countdown(s[m.game_id]))
}

/// What a request for a countdown is answered with.
pub open spec fn countdown_outcome(s: Sessions, m: CountDownMessage) -> OutcomeView {
    OutcomeView {
        reply: m.game_id,
        actions: if s.contains_key(m.game_id) && !s[m.game_id].game_started {
            seq![ActionView::StartCountdown { game_id: m.game_id }]
        } else {
            Seq::empty()
        },
    }
}

/// The timers to stop when a session goes away.
pub open spec fn teardown(id: usize, g: GameView) -> Seq<ActionView> {
    if g.game_countdown_active {
        seq![ActionView::CancelTicker { game_id: id }, ActionView::CancelCountdown { game_id: id }]
    } else {
        seq![ActionView::CancelTicker { game_id: id }]
    }
}

/// What the end of a session is answered with.
pub open spec fn delete_outcome(s: Sessions, m: DeleteGame) -> OutcomeView {
    OutcomeView {
        reply: m.game_id,
        actions: if_present(s, m.game_id, teardown(m.game_id, s[m.game_id])),
    }
}

/// What a text for a whole session is answered with.
pub open spec fn broadcast_str_outcome(s: Sessions, b: BroadcastStrView) -> OutcomeView {
    OutcomeView {
        reply: 0,
        actions: if_present(
            s,
            b.game_id,
            seq![
                ActionView::Broadcast {
                    game_id: b.game_id,
                    player_ids: except(addr_ids(s[b.game_id].players), b.ori_player_id),
                    notice: NoticeView::Text(b.json_string),
                },
            ],
        ),
    }
}

/// What a notice for a list of participants is answered with.
pub open spec fn broadcast_obj_outcome(b: BroadcastObjView) -> OutcomeView {
    OutcomeView {
        reply: 0,
        actions: seq![
            ActionView::Broadcast {
                game_id: b.game_id,
                player_ids: except(b.player_ids, b.ori_player_id),
                notice: b.notice,
            },
        ],
    }
}

/// Whether a card can be drawn: it is one of the table and its weight is
/// not zero.
pub open spec fn card_ok(weights: Seq<u32>, card: u8) -> bool {
    card < weights.len() && weights[card as int] > 0
}

/// The sessions after a request to advance one of them.
pub open spec fn create_turn_step(s: Sessions, m: CreateTurnMessage) -> Sessions {
    stepped(s, m.game_id, after_advance(s[m.game_id], m))
}

/// What a request to advance is answered with.
pub open spec fn create_turn_outcome(
    s: Sessions,
    m: CreateTurnMessage,
    draws: TurnDrawsView,
) -> OutcomeView {
    if s.contains_key(m.game_id) {
        OutcomeView {
            reply: advance_reply(s[m.game_id], m),
            actions: advance_actions(s[m.game_id], m, draws),
        }
    } else {
        OutcomeView { reply: m.game_id, actions: Seq::empty() }
    }
}

/// What holds of the random values drawn for an advance: there is one for
/// every seat, every character is one of the three, every card can be
/// drawn, and every index points into the offer of its seat where there is
/// one.
pub open spec fn turn_draws_valid(weights: Seq<u32>, g: GameView, draws: TurnDrawsView) -> bool {
    &&& draws.fits(g)
    &&& forall|i: int| 0 <= i < draws.characters.len() ==> #[trigger] draws.characters[i] < 3
    &&& forall|i: int|
        0 <= i < draws.late_cards.len() ==> card_ok(weights, #[trigger] draws.late_cards[i])
    &&& forall|i: int|
        0 <= i < draws.next_cards.len() ==> card_ok(weights, #[trigger] draws.next_cards[i])
    &&& forall|i: int|
        0 <= i < draws.picks.len() ==> match g.players[i].card_options {
            Some(options) => options.len() > 0 ==> #[trigger] draws.picks[i] < options.len(),
            None => true,
        }
}

/// The sessions after a fresh offer was dealt in one of them.
pub open spec fn card_choice_step(
    s: Sessions,
    m: CardChoiceMessage,
    cards: Seq<(u8, u8, u8)>,
) -> Sessions {
    stepped(s, m.game_id, after_deal(s[m.game_id], cards))
}

/// What a request to deal is answered with.
pub open spec fn card_choice_outcome(
    s: Sessions,
    m: CardChoiceMessage,
    cards: Seq<(u8, u8, u8)>,
) -> OutcomeView {
    OutcomeView {
        reply: m.turn_id,
        actions: if_present(s, m.game_id, deal_actions(s[m.game_id], m, cards)),
    }
}

/// What holds of the cards drawn for an offer: there are three for every
/// seat, and each can be drawn.
pub open spec fn offers_valid(weights: Seq<u32>, g: GameView, cards: Seq<(u8, u8, u8)>) -> bool {
    &&& cards.len() == g.players.len()
    &&& forall|i: int|
        0 <= i < cards.len() ==> {
            &&& card_ok(weights, (#[trigger] cards[i]).0)
            &&& card_ok(weights, cards[i].1)
            &&& card_ok(weights, cards[i].2)
        }
}

/// The random values that a request for a seat may use: the identifier and
/// the squares of a session that has to be opened, the secret and the
/// facing of the newcomer, and the first card of a computer player.
pub struct SeatDrawsView {
    pub session_key: usize,
    pub positions: Seq<(u16, u16)>,
    pub private_key: Seq<char>,
    pub facing: u8,
    pub card: u8,
}

/// Whether a session still takes participants in.
pub open spec fn is_open(s: Sessions, id: usize) -> bool {
    s.contains_key(id) && !s[id].game_started
}

/// Whether a session is the one with the least identifier among those that
/// still take participants in.
pub open spec fn is_first_open(s: Sessions, id: usize) -> bool {
    is_open(s, id) && forall|other: usize| is_open(s, other) ==> id <= other
}

/// The session that a newcomer is sent to: of those that still take
/// participants in, the one with the least identifier.
pub open spec fn first_open(s: Sessions) -> Option<usize> {
    if exists|id: usize| is_first_open(s, id) {
        Some(choose|id: usize| is_first_open(s, id))
    } else {
        None
    }
}

/// Whether a square lies on the board, below its first row.
pub open spec fn on_board(pos: (u16, u16)) -> bool {
    pos.0 < BOARD_SIZE.0 && 1 <= pos.1 < BOARD_SIZE.1
}

/// A session that has just been opened, with its free squares.
pub open spec fn lobby(positions: Seq<(u16, u16)>) -> GameView {
    GameView {
        board_size: BOARD_SIZE,
        game_started: false,
        players: Seq::empty(),
        turn_index: 0,
        available_pos: positions,
        game_countdown_active: false,
        has_loop_countdown: false,
    }
}

/// Whether a request for a seat opens a session: it names none, and none
/// takes participants in.
pub open spec fn opens_session(s: Sessions, c: ConnectView) -> bool {
    c.game_id is None && first_open(s) is None
}

/// The session in which a seat is asked for, if any: the one named, if it
/// exists; else the first that takes participants in; else a new one.
pub open spec fn connect_target(s: Sessions, c: ConnectView, draws: SeatDrawsView) -> Option<
    usize,
> {
    match c.game_id {
        Some(id) => if s.contains_key(id) {
            Some(id)
        } else {
            None
        },
        None => match first_open(s) {
            Some(id) => Some(id),
            None => Some(draws.session_key),
        },
    }
}

/// The sessions with the new one, where a request for a seat opens one.
pub open spec fn with_lobby(s: Sessions, c: ConnectView, draws: SeatDrawsView) -> Sessions {
    if opens_session(s, c) {
        s.insert(draws.session_key, lobby(draws.positions))
    } else {
        s
    }
}

/// The sessions after a request for a seat.
pub open spec fn connect_step(s: Sessions, c: ConnectView, draws: SeatDrawsView) -> Sessions {
    match connect_target(s, c, draws) {
        Some(id) => {
            let opened = with_lobby(s, c, draws);
            opened.insert(id, after_seat(opened[id], c, id, draws.private_key, draws.facing))
        },
        None => s,
    }
}

/// What the opening of a session asks for: its tick and its countdown.
pub open spec fn lobby_actions(id: usize) -> Seq<ActionView> {
    seq![
        ActionView::StartTicker { game_id: id },
        ActionView::Enqueue(CommandView::CountDown(CountDownMessage { game_id: id })),
    ]
}

/// What a request for a seat is answered with.
pub open spec fn connect_outcome(s: Sessions, c: ConnectView, draws: SeatDrawsView) -> OutcomeView {
    match connect_target(s, c, draws) {
        Some(id) => {
            let opened = with_lobby(s, c, draws);
            let opening = if opens_session(s, c) {
                lobby_actions(id)
            } else {
                Seq::empty()
            };
            OutcomeView {
                reply: seat_reply(opened[id]),
                actions: opening + seat_actions(
                    opened[id],
                    c,
                    id,
                    draws.private_key,
                    draws.facing,
                    draws.card,
                ),
            }
        },
        None => OutcomeView { reply: 0, actions: Seq::empty() },
    }
}

/// Whether the squares can be those of a new session: one for every seat,
/// none twice.
pub open spec fn squares_distinct(positions: Seq<(u16, u16)>) -> bool {
    &&& positions.len() == MAX_PLAYERS
    &&& forall|k: int, l: int| 0 <= k < l < positions.len() ==> positions[k] != positions[l]
}

/// Whether the random values can be used for a request: where it opens a
/// session, the identifier is free and the squares are distinct.
pub open spec fn seat_draws_usable(s: Sessions, c: ConnectView, draws: SeatDrawsView) -> bool {
    opens_session(s, c) ==> !s.contains_key(draws.session_key) && squares_distinct(
        draws.positions,
    )
}

/// What holds of the random values drawn for a request for a seat: where
/// it opens a session, the identifier is free and has 32 bits, and the
/// squares are distinct squares of the board; the secret has ten letters or
/// digits, the facing is one of the four, and the card can be drawn.
pub open spec fn seat_draws_valid(
    weights: Seq<u32>,
    s: Sessions,
    c: ConnectView,
    draws: SeatDrawsView,
) -> bool {
    &&& seat_draws_usable(s, c, draws)
    &&& opens_session(s, c) ==> draws.session_key <= u32::MAX && forall|k: int|
        0 <= k < draws.positions.len() ==> on_board(#[trigger] draws.positions[k])
    &&& is_key(draws.private_key)
    &&& draws.facing < 4
    &&& card_ok(weights, draws.card)
}

/// A new session with distinct squares is well-formed.
pub proof fn lemma_lobby_wf(positions: Seq<(u16, u16)>)
    requires
        squares_distinct(positions),
    ensures
        lobby(positions).wf(),
{
    let g = lobby(positions);
    crate::rules::lemma_count_bound(0, crate::rules::voted_at(g.players));
    assert(g.seats_distinct());
}

/// Whether no person is left in the game of a session.
pub open spec fn is_deserted(g: GameView) -> bool {
    active_humans(g.players) == 0
}

/// The sessions in which no person is left in the game.
pub open spec fn deserted(s: Sessions) -> Set<usize> {
    Set::new(|id: usize| s.contains_key(id) && is_deserted(s[id]))
}

/// The sessions without those in which no person is left in the game.
pub open spec fn pruned(s: Sessions) -> Sessions {
    s.remove_keys(deserted(s))
}

/// The timers to stop when the sessions listed go away, in that order.
pub open spec fn teardowns(s: Sessions, ids: Seq<usize>) -> Seq<ActionView>
    decreases ids.len(),
{
    if ids.len() == 0 {
        Seq::empty()
    } else {
        teardowns(s, ids.drop_last()) + teardown(ids.last(), s[ids.last()])
    }
}

/// What a clean-up that removed the sessions listed is answered with: the
/// timers to stop, and the number of sessions removed, as a text for whoever
/// asked.
pub open spec fn removal_outcome(s: Sessions, ids: Seq<usize>) -> OutcomeView {
    OutcomeView {
        reply: ids.len() as usize,
        actions: teardowns(s, ids).push(
            ActionView::Reply(NoticeView::Text(removed_text(ids.len()))),
        ),
    }
}

/// Whether a list names each of the sessions of a set once.
pub open spec fn lists(ids: Seq<usize>, of: Set<usize>) -> bool {
    ids.no_duplicates() && ids.to_set() == of
}

/// Whether a command can be handled on this machine: a request for a seat
/// needs an identifier of 32 bits to be free, and an advance needs the next
/// turn to have a number.
pub open spec fn ready_for(s: Sessions, cmd: CommandView) -> bool {
    match cmd {
        CommandView::Connect(_) => s.dom().len() < u32::MAX,
        CommandView::CreateTurn(m) => s.contains_key(m.game_id) ==> s[m.game_id].turn_index
            < usize::MAX,
        _ => true,
    }
}

/// Whether `next` and `out` are what handling `cmd` on the sessions `s`
/// may give, with cards weighted by `weights`. Where random values are
/// drawn, any valid ones may have come.
pub open spec fn handled(
    weights: Seq<u32>,
    s: Sessions,
    cmd: CommandView,
    next: Sessions,
    out: OutcomeView,
) -> bool {
    match cmd {
        CommandView::Connect(c) => exists|draws: SeatDrawsView|
            seat_draws_valid(weights, s, c, draws) && next == #[trigger] connect_step(
                s,
                c,
                draws,
            ) && out == connect_outcome(s, c, draws),
        CommandView::Mutation(m) => next == mutation_step(s, m) && out == mutation_outcome(s, m),
        CommandView::CountDown(m) => next == countdown_step(s, m) && out == countdown_outcome(
            s,
            m,
        ),
        CommandView::CreateTurn(m) => next == create_turn_step(s, m) && if s.contains_key(
            m.game_id,
        ) {
            exists|draws: TurnDrawsView|
                turn_draws_valid(weights, s[m.game_id], draws) && out
                    == #[trigger] create_turn_outcome(s, m, draws)
        } else {
            out == (OutcomeView { reply: m.game_id, actions: Seq::empty() })
        },
        CommandView::CardChoice(m) => if s.contains_key(m.game_id) {
            exists|cards: Seq<(u8, u8, u8)>|
                offers_valid(weights, s[m.game_id], cards) && next == #[trigger] card_choice_step(
                    s,
                    m,
                    cards,
                ) && out == card_choice_outcome(s, m, cards)
        } else {
            next == s && out == (OutcomeView { reply: m.turn_id, actions: Seq::empty() })
        },
        CommandView::Animation(a) => next == animation_step(s, a) && out == animation_outcome(
            s,
            a,
        ),
        CommandView::PollPlayerDeath(v) => next == vote_step(s, v) && out == vote_outcome(s, v),
        CommandView::GameTicker(t) => next == tick_step(s, t) && out == tick_outcome(s, t),
        CommandView::DeleteGame(m) => next == s.remove(m.game_id) && out == delete_outcome(s, m),
        CommandView::BroadcastObj(b) => next == s && out == broadcast_obj_outcome(b),
        CommandView::BroadcastStr(b) => next == s && out == broadcast_str_outcome(s, b),
        CommandView::Prune(_) => next == pruned(s) && exists|ids: Seq<usize>|
            lists(ids, deserted(s)) && out == #[trigger] removal_outcome(s, ids),
        CommandView::FullClean(_) => next == Map::<usize, GameView>::empty() && exists|
            ids: Seq<usize>,
        |
            lists(ids, s.dom()) && out == #[trigger] removal_outcome(s, ids),
        CommandView::Disconnect(_) => next == s && out == (OutcomeView {
            reply: 0,
            actions: Seq::empty(),
        }),
    }
}

} // verus!
