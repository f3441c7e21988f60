//! The rules of a session as mathematics: what each command does to a
//! session's value and which actions it asks for.

use vstd::prelude::*;
use crate::actions::{ActionView, CommandView, NoticeView};
use crate::messages::{
    AnimationMessageView, CardChoiceMessage, CardOptionsView, ConnectView, CreateTurnMessage,
    DeleteGame, GameTickerMessageView, MutationMessageView, PlayerDied, PlayerJoinView,
    PollPlayerDeathMessageView,
};
use crate::models::{GameView, MAX_PLAYERS, Mutation, PlayerView};
use crate::text::{bot_name_text, game_full_text};

verus! {

/// The participants with a connection, by index, in ascending order.
pub open spec fn addr_ids(players: Seq<PlayerView>) -> Seq<usize>
    decreases players.len(),
{
    if players.len() == 0 {
        Seq::empty()
    } else {
        let before = addr_ids(players.drop_last());
        if players.last().has_addr {
            before.push((players.len() - 1) as usize)
        } else {
            before
        }
    }
}

/// A list of participants without the one who caused the notice.
pub open spec fn except(ids: Seq<usize>, ori: Option<usize>) -> Seq<usize>
    decreases ids.len(),
{
    if ids.len() == 0 {
        Seq::empty()
    } else {
        let before = except(ids.drop_last(), ori);
        if ori == Some(ids.last()) {
            before
        } else {
            before.push(ids.last())
        }
    }
}

/// How many of the first `n` indices satisfy `f`.
pub open spec fn count_below(n: nat, f: spec_fn(int) -> bool) -> nat
    decreases n,
{
    if n == 0 {
        0
    } else {
        count_below((n - 1) as nat, f) + if f(n - 1) {
            1nat
        } else {
            0nat
        }
    }
}

/// Whether a participant is a person who is still in the game.
pub open spec fn is_active_human(p: PlayerView) -> bool {
    !p.is_ai && p.active
}

/// Tells of each seat whether a person who is still in the game holds it.
pub open spec fn human_at(players: Seq<PlayerView>) -> spec_fn(int) -> bool {
    |i: int| 0 <= i < players.len() && is_active_human(players[i])
}

/// Tells of each seat whether its holder has voted this turn.
pub open spec fn voted_at(players: Seq<PlayerView>) -> spec_fn(int) -> bool {
    |i: int| 0 <= i < players.len() && players[i].has_death_voted
}

/// Tells of each seat whether its holder is still in the game.
pub open spec fn active_at(players: Seq<PlayerView>) -> spec_fn(int) -> bool {
    |i: int| 0 <= i < players.len() && players[i].active
}

/// How many participants are persons still in the game.
pub open spec fn active_humans(players: Seq<PlayerView>) -> nat {
    count_below(players.len(), human_at(players))
}

/// How many participants have cast their vote this turn.
pub open spec fn voters(players: Seq<PlayerView>) -> nat {
    count_below(players.len(), voted_at(players))
}

/// How many participants are still in the game.
pub open spec fn alive(players: Seq<PlayerView>) -> nat {
    count_below(players.len(), active_at(players))
}

/// A count never exceeds the number of indices counted over.
pub proof fn lemma_count_bound(n: nat, f: spec_fn(int) -> bool)
    ensures
        count_below(n, f) <= n,
    decreases n,
{
    if n > 0 {
        lemma_count_bound((n - 1) as nat, f);
    }
}

/// Two predicates that agree below `n` count the same.
pub proof fn lemma_count_same(n: nat, f: spec_fn(int) -> bool, g: spec_fn(int) -> bool)
    requires
        forall|i: int| 0 <= i < n ==> #[trigger] f(i) == g(i),
    ensures
        count_below(n, f) == count_below(n, g),
    decreases n,
{
    if n > 0 {
        lemma_count_same((n - 1) as nat, f, g);
    }
}

/// Two predicates that agree below `n` but at `k` differ in their counts
/// by what they say of `k`.
pub proof fn lemma_count_change(
    n: nat,
    f: spec_fn(int) -> bool,
    g: spec_fn(int) -> bool,
    k: int,
)
    requires
        0 <= k < n,
        forall|i: int| 0 <= i < n && i != k ==> #[trigger] f(i) == g(i),
    ensures
        count_below(n, f) + (if g(k) { 1nat } else { 0nat }) == count_below(n, g) + (if f(k) {
            1nat
        } else {
            0nat
        }),
    decreases n,
{
    if n - 1 == k {
        lemma_count_same((n - 1) as nat, f, g);
    } else {
        lemma_count_change((n - 1) as nat, f, g, k);
    }
}

/// The notice that goes to everyone connected but `ori`.
pub open spec fn broadcast(
    game_id: usize,
    players: Seq<PlayerView>,
    ori: Option<usize>,
    notice: NoticeView,
) -> ActionView {
    ActionView::Broadcast { game_id, player_ids: except(addr_ids(players), ori), notice }
}

/// A text for one participant, if it has a connection.
pub open spec fn text_for(game_id: usize, p: PlayerView, player_id: usize, text: Seq<char>) -> Seq<
    ActionView,
> {
    if p.has_addr {
        seq![ActionView::Send { game_id, player_id, notice: NoticeView::Text(text) }]
    } else {
        Seq::empty()
    }
}

/// Whether a submitted move names a seat of the session.
pub open spec fn move_in_range(g: GameView, m: MutationMessageView) -> bool {
    m.player_id < g.players.len()
}

/// Whether a submitted move carries the secret of its seat.
pub open spec fn move_key_matches(g: GameView, m: MutationMessageView) -> bool {
    move_in_range(g, m) && g.players[m.player_id as int].private_key == m.pk
}

/// Whether the card of a submitted move may be played from its seat: a
/// computer player may play any card, a person one of the cards on offer.
pub open spec fn move_card_allowed(g: GameView, m: MutationMessageView) -> bool {
    let p = g.players[m.player_id as int];
    move_in_range(g, m) && (p.is_ai || match p.card_options {
        Some(options) => options.contains(m.mutation.card_type),
        None => false,
    })
}

/// Whether a submitted move is accepted.
pub open spec fn move_accepted(g: GameView, m: MutationMessageView) -> bool {
    move_key_matches(g, m) && move_card_allowed(g, m)
}

/// The session after a move was submitted.
pub open spec fn after_move(g: GameView, m: MutationMessageView) -> GameView {
    if move_accepted(g, m) {
        let p = g.players[m.player_id as int];
        GameView {
            players: g.players.update(
                m.player_id as int,
                PlayerView {
                    previous_choices: p.previous_choices.push(m.mutation),
                    card_options: None,
                    ..p
                },
            ),
            ..g
        }
    } else {
        g
    }
}

/// The actions that a submitted move asks for.
pub open spec fn move_actions(g: GameView, m: MutationMessageView) -> Seq<ActionView> {
    if !move_in_range(g, m) {
        Seq::empty()
    } else if !move_key_matches(g, m) {
        text_for(m.game_id, g.players[m.player_id as int], m.player_id, "Wrong pk"@)
    } else if !move_card_allowed(g, m) {
        text_for(m.game_id, g.players[m.player_id as int], m.player_id, "Card not in option"@)
    } else {
        seq![broadcast(m.game_id, g.players, Some(m.player_id), NoticeView::Move(m.mutation))]
    }
}

impl GameView {
    /// The square on which a participant started.
    pub open spec fn seat(self, i: int) -> (u16, u16) {
        (self.players[i].pos.0, self.players[i].pos.1)
    }

    /// No square is given out twice, neither to two participants nor to a
    /// participant and the pool of free squares.
    pub open spec fn seats_distinct(self) -> bool {
        &&& forall|i: int, j: int|
            0 <= i < j < self.players.len() ==> self.seat(i) != self.seat(j)
        &&& forall|i: int, k: int|
            0 <= i < self.players.len() && 0 <= k < self.available_pos.len() ==> self.seat(i)
                != self.available_pos[k]
        &&& forall|k: int, l: int|
            0 <= k < l < self.available_pos.len() ==> self.available_pos[k]
                != self.available_pos[l]
    }

    /// What holds of every session that the coordinator keeps.
    pub open spec fn wf(self) -> bool {
        &&& self.players.len() + self.available_pos.len() == MAX_PLAYERS
        &&& forall|i: int| 0 <= i < self.players.len() ==> (#[trigger] self.players[i]).id == i
        &&& self.seats_distinct()
        &&& !self.game_started ==> self.turn_index == 0
        &&& self.game_started ==> !self.game_countdown_active
        &&& forall|i: int|
            0 <= i < self.players.len() ==> (#[trigger] self.players[i]).been_death_voted_for
                <= voters(self.players)
    }
}

/// Whether a death vote counts: voter and target are seats of the session,
/// the voter has not voted this turn and shows its secret, and the target is
/// still in the game.
pub open spec fn vote_accepted(g: GameView, v: PollPlayerDeathMessageView) -> bool {
    &&& v.self_id < g.players.len()
    &&& v.other_id < g.players.len()
    &&& !g.players[v.self_id as int].has_death_voted
    &&& g.players[v.self_id as int].private_key == v.pk
    &&& g.players[v.other_id as int].active
}

/// The participants once an accepted vote has been counted.
pub open spec fn vote_counted(g: GameView, v: PollPlayerDeathMessageView) -> Seq<PlayerView> {
    let marked = g.players.update(
        v.self_id as int,
        PlayerView { has_death_voted: true, ..g.players[v.self_id as int] },
    );
    marked.update(
        v.other_id as int,
        PlayerView {
            been_death_voted_for: (marked[v.other_id as int].been_death_voted_for + 1) as usize,
            ..marked[v.other_id as int]
        },
    )
}

/// Whether the votes against a participant reach half of the persons who
/// are still in the game.
pub open spec fn quorum_reached(players: Seq<PlayerView>, target: int) -> bool {
    2 * players[target].been_death_voted_for >= active_humans(players)
}

/// Whether a death vote eliminates its target.
pub open spec fn vote_eliminates(g: GameView, v: PollPlayerDeathMessageView) -> bool {
    vote_accepted(g, v) && quorum_reached(vote_counted(g, v), v.other_id as int)
}

/// The session after a death vote.
pub open spec fn after_vote(g: GameView, v: PollPlayerDeathMessageView) -> GameView {
    if vote_accepted(g, v) {
        let counted = vote_counted(g, v);
        if quorum_reached(counted, v.other_id as int) {
            GameView {
                players: counted.update(
                    v.other_id as int,
                    PlayerView { active: false, ..counted[v.other_id as int] },
                ),
                ..g
            }
        } else {
            GameView { players: counted, ..g }
        }
    } else {
        g
    }
}

/// The actions that a death vote asks for.
pub open spec fn vote_actions(g: GameView, v: PollPlayerDeathMessageView) -> Seq<ActionView> {
    if vote_eliminates(g, v) {
        seq![
            broadcast(v.game_id, g.players, None, NoticeView::Died(PlayerDied { user_id: v.other_id })),
        ]
    } else {
        Seq::empty()
    }
}

/// A death vote leaves a well-formed session well-formed.
pub proof fn lemma_vote_keeps_wf(g: GameView, v: PollPlayerDeathMessageView)
    requires
        g.wf(),
    ensures
        after_vote(g, v).wf(),
{
    if vote_accepted(g, v) {
        let counted = vote_counted(g, v);
        let h = after_vote(g, v);
        assert(h.players.len() == g.players.len());
        assert forall|i: int| 0 <= i < g.players.len() implies h.seat(i) == g.seat(i) && (
        #[trigger] h.players[i]).id == g.players[i].id by {}
        lemma_count_change(
            counted.len(),
            voted_at(g.players),
            voted_at(counted),
            v.self_id as int,
        );
        lemma_count_same(counted.len(), voted_at(counted), voted_at(h.players));
        lemma_count_bound(g.players.len(), voted_at(g.players));
        assert(voters(h.players) == voters(g.players) + 1);
        assert forall|i: int| 0 <= i < h.players.len() implies (
        #[trigger] h.players[i]).been_death_voted_for <= voters(h.players) by {
            assert(g.players[i].been_death_voted_for <= voters(g.players));
        }
        assert(h.seats_distinct()) by {
            assert(g.seats_distinct());
            assert forall|i: int, j: int| 0 <= i < j < h.players.len() implies h.seat(i) != h.seat(
                j,
            ) by {
                assert(g.seat(i) != g.seat(j));
            }
            assert forall|i: int, k: int|
                0 <= i < h.players.len() && 0 <= k < h.available_pos.len() implies h.seat(i)
                != h.available_pos[k] by {
                assert(g.seat(i) != g.available_pos[k]);
            }
        }
    }
}

/// Tells of each seat whether a person still in the game holds it who has
/// reported the end of its animations.
pub open spec fn done_human_at(players: Seq<PlayerView>) -> spec_fn(int) -> bool {
    |i: int| 0 <= i < players.len() && is_active_human(players[i]) && players[i].animation_done
}

/// How many persons still in the game have reported the end of their
/// animations.
pub open spec fn humans_done(players: Seq<PlayerView>) -> nat {
    count_below(players.len(), done_human_at(players))
}

/// Whether a turn has stalled: the game runs, no delayed advance is pending,
/// and of the persons still in the game at least nine in ten, but not all,
/// have reported the end of their animations.
pub open spec fn stall_detected(g: GameView) -> bool {
    &&& g.game_started
    &&& !g.has_loop_countdown
    &&& humans_done(g.players) < active_humans(g.players)
    &&& 10 * humans_done(g.players) >= 9 * active_humans(g.players)
}

/// The session with the report of one participant noted.
pub open spec fn animation_noted(g: GameView, a: AnimationMessageView) -> GameView {
    GameView {
        players: g.players.update(
            a.player_id as int,
            PlayerView { animation_done: true, ..g.players[a.player_id as int] },
        ),
        ..g
    }
}

/// Whether a report of finished animations sets off a delayed advance.
pub open spec fn animation_stalls(g: GameView, a: AnimationMessageView) -> bool {
    a.player_id < g.players.len() && stall_detected(animation_noted(g, a))
}

/// The session after a participant reported the end of its animations.
pub open spec fn after_animation(g: GameView, a: AnimationMessageView) -> GameView {
    if a.player_id >= g.players.len() {
        g
    } else if animation_stalls(g, a) {
        GameView { has_loop_countdown: true, ..animation_noted(g, a) }
    } else {
        animation_noted(g, a)
    }
}

/// The actions that a report of finished animations asks for.
pub open spec fn animation_actions(g: GameView, a: AnimationMessageView) -> Seq<ActionView> {
    if animation_stalls(g, a) {
        seq![ActionView::ScheduleAdvance { game_id: a.game_id, turn_index: g.turn_index }]
    } else {
        Seq::empty()
    }
}

/// Whether the connection of seat `i` is reported as up.
pub open spec fn is_live(live: Seq<bool>, i: int) -> bool {
    0 <= i < live.len() && live[i]
}

/// Whether the holder of seat `i` is still in the game although its
/// connection went away.
pub open spec fn gone(p: PlayerView, live: Seq<bool>, i: int) -> bool {
    p.active && p.has_addr && !is_live(live, i)
}

/// The participants once those whose connection went away have left the
/// game.
pub open spec fn after_drops(players: Seq<PlayerView>, live: Seq<bool>) -> Seq<PlayerView> {
    Seq::new(
        players.len(),
        |i: int|
            if gone(players[i], live, i) {
                PlayerView { active: false, ..players[i] }
            } else {
                players[i]
            },
    )
}

/// The notices of elimination for the first `k` seats, one for each
/// participant whose connection went away.
pub open spec fn drop_notices(
    game_id: usize,
    players: Seq<PlayerView>,
    live: Seq<bool>,
    k: nat,
) -> Seq<ActionView>
    decreases k,
{
    if k == 0 {
        Seq::empty()
    } else {
        let before = drop_notices(game_id, players, live, (k - 1) as nat);
        if gone(players[k - 1], live, k - 1) {
            before.push(
                broadcast(
                    game_id,
                    players,
                    None,
                    NoticeView::Died(PlayerDied { user_id: (k - 1) as usize }),
                ),
            )
        } else {
            before
        }
    }
}

/// Tells of each seat whether its connection is up and its animations are
/// still awaited.
pub open spec fn waiting_at(players: Seq<PlayerView>, live: Seq<bool>) -> spec_fn(int) -> bool {
    |i: int|
        0 <= i < players.len() && players[i].has_addr && is_live(live, i)
            && !players[i].animation_done
}

/// Tells of each seat whether a person with a connection that is up holds
/// it.
pub open spec fn live_human_at(players: Seq<PlayerView>, live: Seq<bool>) -> spec_fn(int) -> bool {
    |i: int| 0 <= i < players.len() && players[i].has_addr && is_live(live, i) && !players[i].is_ai
}

/// Whether a tick still waits for the animations of someone connected.
pub open spec fn tick_waits(players: Seq<PlayerView>, live: Seq<bool>) -> bool {
    count_below(players.len(), waiting_at(players, live)) != 0
}

/// Whether a session has come to its end: no person is connected any more,
/// or exactly one participant is left in the game.
pub open spec fn session_over(players: Seq<PlayerView>, live: Seq<bool>) -> bool {
    count_below(players.len(), live_human_at(players, live)) == 0 || alive(players) == 1
}

/// The participants with the reports of finished animations cleared.
pub open spec fn animations_cleared(players: Seq<PlayerView>) -> Seq<PlayerView> {
    Seq::new(players.len(), |i: int| PlayerView { animation_done: false, ..players[i] })
}

/// The session after a tick.
pub open spec fn after_tick(g: GameView, t: GameTickerMessageView) -> GameView {
    if !g.game_started {
        g
    } else {
        let dropped = after_drops(g.players, t.live);
        if tick_waits(dropped, t.live) || session_over(dropped, t.live) {
            GameView { players: dropped, ..g }
        } else {
            GameView { players: animations_cleared(dropped), ..g }
        }
    }
}

/// The actions that a tick asks for.
pub open spec fn tick_actions(g: GameView, t: GameTickerMessageView) -> Seq<ActionView> {
    if !g.game_started {
        Seq::empty()
    } else {
        let dropped = after_drops(g.players, t.live);
        let notices = drop_notices(t.game_id, g.players, t.live, g.players.len());
        if tick_waits(dropped, t.live) {
            notices
        } else if session_over(dropped, t.live) {
            notices.push(
                ActionView::Enqueue(CommandView::DeleteGame(DeleteGame { game_id: t.game_id })),
            )
        } else {
            notices.push(
                ActionView::Enqueue(
                    CommandView::CreateTurn(
                        CreateTurnMessage { game_id: t.game_id, check_turn_id: None },
                    ),
                ),
            )
        }
    }
}

/// Whether two sessions agree on all that well-formedness speaks of.
pub open spec fn same_frame(g: GameView, h: GameView) -> bool {
    &&& h.players.len() == g.players.len()
    &&& h.available_pos == g.available_pos
    &&& h.game_started == g.game_started
    &&& h.turn_index == g.turn_index
    &&& h.game_countdown_active == g.game_countdown_active
    &&& forall|i: int|
        0 <= i < g.players.len() ==> {
            &&& (#[trigger] h.players[i]).id == g.players[i].id
            &&& h.players[i].pos == g.players[i].pos
            &&& h.players[i].has_death_voted == g.players[i].has_death_voted
            &&& h.players[i].been_death_voted_for == g.players[i].been_death_voted_for
        }
}

/// A session that agrees with a well-formed one on all that
/// well-formedness speaks of is well-formed.
pub proof fn lemma_frame_keeps_wf(g: GameView, h: GameView)
    requires
        g.wf(),
        same_frame(g, h),
    ensures
        h.wf(),
{
    lemma_count_same(g.players.len(), voted_at(g.players), voted_at(h.players));
    assert forall|i: int| 0 <= i < h.players.len() implies (
    #[trigger] h.players[i]).been_death_voted_for <= voters(h.players) by {
        assert(g.players[i].been_death_voted_for <= voters(g.players));
    }
    assert forall|i: int| 0 <= i < h.players.len() implies h.seat(i) == g.seat(i) by {
        assert(h.players[i].pos == g.players[i].pos);
    }
    assert(h.seats_distinct()) by {
        assert forall|i: int, j: int| 0 <= i < j < h.players.len() implies h.seat(i) != h.seat(
            j,
        ) by {
            assert(g.seat(i) != g.seat(j));
        }
        assert forall|i: int, k: int|
            0 <= i < h.players.len() && 0 <= k < h.available_pos.len() implies h.seat(i)
            != h.available_pos[k] by {
            assert(g.seat(i) != g.available_pos[k]);
        }
    }
}

/// The three cards of an offer, as a list.
pub open spec fn offer_of(cards: (u8, u8, u8)) -> Seq<u8> {
    seq![cards.0, cards.1, cards.2]
}

/// The session after a fresh offer was dealt to everyone still in the game:
/// participant `i` is offered `cards[i]`.
pub open spec fn after_deal(g: GameView, cards: Seq<(u8, u8, u8)>) -> GameView {
    GameView {
        players: Seq::new(
            g.players.len(),
            |i: int|
                if g.players[i].active {
                    PlayerView { card_options: Some(offer_of(cards[i])), ..g.players[i] }
                } else {
                    g.players[i]
                },
        ),
        ..g
    }
}

/// The offers sent to the first `k` seats: one to each participant who is
/// still in the game and has a connection.
pub open spec fn offer_notices(
    m: CardChoiceMessage,
    players: Seq<PlayerView>,
    cards: Seq<(u8, u8, u8)>,
    k: nat,
) -> Seq<ActionView>
    decreases k,
{
    if k == 0 {
        Seq::empty()
    } else {
        let before = offer_notices(m, players, cards, (k - 1) as nat);
        let p = players[k - 1];
        if p.active && p.has_addr {
            before.push(
                ActionView::Send {
                    game_id: m.game_id,
                    player_id: (k - 1) as usize,
                    notice: NoticeView::Offer(
                        CardOptionsView {
                            card_options: offer_of(cards[k - 1]),
                            player_id: p.id,
                            turn_id: m.turn_id,
                        },
                    ),
                },
            )
        } else {
            before
        }
    }
}

/// The actions that dealing asks for.
pub open spec fn deal_actions(g: GameView, m: CardChoiceMessage, cards: Seq<(u8, u8, u8)>) -> Seq<
    ActionView,
> {
    offer_notices(m, g.players, cards, g.players.len())
}

/// The random values that an advance may use: the characters of the
/// computer players that fill a lobby, and for each seat the index of the
/// offered card to play for a person who is late, the card to play for a
/// computer player that is late, and the card that a computer player plays
/// in the turn that begins.
pub struct TurnDrawsView {
    pub characters: Seq<u8>,
    pub picks: Seq<usize>,
    pub late_cards: Seq<u8>,
    pub next_cards: Seq<u8>,
}

impl TurnDrawsView {
    /// Whether there is a value for every seat of the session.
    pub open spec fn fits(self, g: GameView) -> bool {
        &&& self.characters.len() == MAX_PLAYERS
        &&& self.picks.len() == g.players.len()
        &&& self.late_cards.len() == g.players.len()
        &&& self.next_cards.len() == g.players.len()
    }
}

/// Whether a request to advance was made for a turn that is over.
pub open spec fn advance_is_stale(g: GameView, m: CreateTurnMessage) -> bool {
    match m.check_turn_id {
        Some(turn) => turn != g.turn_index,
        None => false,
    }
}

/// Every participant with the flags of the turn cleared.
pub open spec fn flags_cleared(players: Seq<PlayerView>) -> Seq<PlayerView> {
    Seq::new(
        players.len(),
        |i: int|
            PlayerView {
                animation_done: false,
                has_death_voted: false,
                been_death_voted_for: 0,
                ..players[i]
            },
    )
}

/// The session after a request to advance: a stale request only clears the
/// mark of a pending delayed advance; in the lobby the game starts and the
/// turn stays 0; in a running game the flags of the turn are cleared and the
/// turn goes up by one.
pub open spec fn after_advance(g: GameView, m: CreateTurnMessage) -> GameView {
    let cleared = GameView { has_loop_countdown: false, ..g };
    if advance_is_stale(g, m) {
        cleared
    } else if !g.game_started {
        GameView { game_started: true, game_countdown_active: false, ..cleared }
    } else {
        GameView {
            players: flags_cleared(g.players),
            turn_index: (g.turn_index + 1) as usize,
            ..cleared
        }
    }
}

/// The command that plays a card on behalf of a participant.
pub open spec fn auto_move(game_id: usize, p: PlayerView, card: u8, turn_id: usize) -> ActionView {
    ActionView::Enqueue(
        CommandView::Mutation(
            MutationMessageView {
                mutation: Mutation { user_id: p.id, card_type: card, card_location: 0 },
                player_id: p.id,
                pk: p.private_key,
                turn_id,
                game_id,
            },
        ),
    )
}

/// The card played for a participant who owes a move when the turn ends,
/// if any: a computer player plays `late`, a person the offered card with
/// index `pick`.
pub open spec fn late_card(p: PlayerView, turn_index: usize, pick: usize, late: u8) -> Option<u8> {
    if !(p.active && p.previous_choices.len() < turn_index) {
        None
    } else if p.is_ai {
        Some(late)
    } else {
        match p.card_options {
            Some(options) => if pick < options.len() {
                Some(options[pick as int])
            } else {
                None
            },
            None => None,
        }
    }
}

/// The moves made for those among the first `k` seats who owe one.
pub open spec fn late_moves(
    game_id: usize,
    players: Seq<PlayerView>,
    turn_index: usize,
    draws: TurnDrawsView,
    k: nat,
) -> Seq<ActionView>
    decreases k,
{
    if k == 0 {
        Seq::empty()
    } else {
        let before = late_moves(game_id, players, turn_index, draws, (k - 1) as nat);
        match late_card(players[k - 1], turn_index, draws.picks[k - 1], draws.late_cards[k - 1]) {
            Some(card) => before.push(auto_move(game_id, players[k - 1], card, turn_index)),
            None => before,
        }
    }
}

/// The moves of the computer players among the first `k` seats for the turn
/// that begins.
pub open spec fn ai_moves(
    game_id: usize,
    players: Seq<PlayerView>,
    turn_index: usize,
    draws: TurnDrawsView,
    k: nat,
) -> Seq<ActionView>
    decreases k,
{
    if k == 0 {
        Seq::empty()
    } else {
        let before = ai_moves(game_id, players, turn_index, draws, (k - 1) as nat);
        let p = players[k - 1];
        if p.is_ai && p.active {
            before.push(auto_move(game_id, p, draws.next_cards[k - 1], turn_index))
        } else {
            before
        }
    }
}

/// The requests for the first `k` computer players that fill a lobby.
pub open spec fn bot_connects(game_id: usize, characters: Seq<u8>, k: nat) -> Seq<ActionView>
    decreases k,
{
    if k == 0 {
        Seq::empty()
    } else {
        bot_connects(game_id, characters, (k - 1) as nat).push(
            ActionView::Enqueue(
                CommandView::Connect(
                    ConnectView {
                        username: bot_name_text((k - 1) as nat),
                        character_type: characters[k - 1],
                        has_addr: false,
                        game_id: Some(game_id),
                    },
                ),
            ),
        )
    }
}

/// What an advance asks for before the offers: in the lobby the end of the
/// countdown and a computer player for every free seat, in a running game a
/// move for everyone who owes one.
pub open spec fn advance_opening(g: GameView, m: CreateTurnMessage, draws: TurnDrawsView) -> Seq<
    ActionView,
> {
    if !g.game_started {
        let stop = if g.game_countdown_active {
            seq![ActionView::CancelCountdown { game_id: m.game_id }]
        } else {
            Seq::empty()
        };
        stop + bot_connects(m.game_id, draws.characters, (MAX_PLAYERS - g.players.len()) as nat)
    } else {
        late_moves(m.game_id, g.players, g.turn_index, draws, g.players.len())
    }
}

/// The actions that a request to advance asks for.
pub open spec fn advance_actions(g: GameView, m: CreateTurnMessage, draws: TurnDrawsView) -> Seq<
    ActionView,
> {
    if advance_is_stale(g, m) {
        Seq::empty()
    } else {
        let h = after_advance(g, m);
        advance_opening(g, m, draws).push(
            ActionView::Enqueue(
                CommandView::CardChoice(
                    CardChoiceMessage { game_id: m.game_id, turn_id: h.turn_index },
                ),
            ),
        ) + ai_moves(m.game_id, h.players, h.turn_index, draws, h.players.len())
    }
}

/// The answer to a request to advance.
pub open spec fn advance_reply(g: GameView, m: CreateTurnMessage) -> usize {
    if advance_is_stale(g, m) {
        0
    } else {
        m.game_id
    }
}

/// The record of the participant who takes the next seat of a session.
pub open spec fn newcomer(
    g: GameView,
    c: ConnectView,
    game_id: usize,
    private_key: Seq<char>,
    facing: u8,
) -> PlayerView {
    PlayerView::seated(
        g.players.len() as usize,
        game_id,
        c.username,
        c.character_type,
        g.available_pos[0],
        !c.has_addr,
        c.has_addr,
        private_key,
        facing,
    )
}

/// Whether a session has no seat left.
pub open spec fn is_full(g: GameView) -> bool {
    g.available_pos.len() == 0
}

/// The session after someone asked for a seat: unless it is full, the
/// newcomer takes the first free square.
pub open spec fn after_seat(
    g: GameView,
    c: ConnectView,
    game_id: usize,
    private_key: Seq<char>,
    facing: u8,
) -> GameView {
    if is_full(g) {
        g
    } else {
        GameView {
            players: g.players.push(newcomer(g, c, game_id, private_key, facing)),
            available_pos: g.available_pos.remove(0),
            ..g
        }
    }
}

/// The public records of the first `k` participants, each as an answer to
/// the newcomer.
pub open spec fn roster(players: Seq<PlayerView>, k: nat) -> Seq<ActionView>
    decreases k,
{
    if k == 0 {
        Seq::empty()
    } else {
        roster(players, (k - 1) as nat).push(
            ActionView::Reply(NoticeView::Join(PlayerJoinView::of(players[k - 1]))),
        )
    }
}

/// The actions that a request for a seat asks for.
pub open spec fn seat_actions(
    g: GameView,
    c: ConnectView,
    game_id: usize,
    private_key: Seq<char>,
    facing: u8,
    card: u8,
) -> Seq<ActionView> {
    if is_full(g) {
        if c.has_addr {
            seq![ActionView::Reply(NoticeView::Text(game_full_text(game_id as nat)))]
        } else {
            Seq::empty()
        }
    } else {
        let h = after_seat(g, c, game_id, private_key, facing);
        let me = newcomer(g, c, game_id, private_key, facing);
        let welcome = if c.has_addr {
            seq![ActionView::Reply(NoticeView::Seat(me))] + roster(h.players, h.players.len())
        } else {
            Seq::empty()
        };
        let start = if h.players.len() == MAX_PLAYERS && !h.game_started {
            seq![
                ActionView::Enqueue(
                    CommandView::CreateTurn(CreateTurnMessage { game_id, check_turn_id: None }),
                ),
            ]
        } else {
            Seq::empty()
        };
        let first_move = if me.is_ai {
            seq![auto_move(game_id, me, card, g.turn_index)]
        } else {
            Seq::empty()
        };
        welcome.push(
            broadcast(game_id, h.players, Some(me.id), NoticeView::Join(PlayerJoinView::of(me))),
        ) + start + first_move
    }
}

/// The answer to a request for a seat: the seat taken, or 0 from a full
/// session.
pub open spec fn seat_reply(g: GameView) -> usize {
    if is_full(g) {
        0
    } else {
        g.players.len() as usize
    }
}

/// A request to advance leaves a well-formed session well-formed.
pub proof fn lemma_advance_keeps_wf(g: GameView, m: CreateTurnMessage)
    requires
        g.wf(),
    ensures
        after_advance(g, m).wf(),
{
    let h = after_advance(g, m);
    if advance_is_stale(g, m) || !g.game_started {
        assert(h.players == g.players);
        assert forall|i: int| 0 <= i < h.players.len() implies h.seat(i) == g.seat(i) by {}
        assert(h.seats_distinct());
    } else {
        assert forall|i: int| 0 <= i < h.players.len() implies h.seat(i) == g.seat(i) && (
        #[trigger] h.players[i]).id == g.players[i].id by {}
        assert(h.seats_distinct()) by {
            assert forall|i: int, j: int| 0 <= i < j < h.players.len() implies h.seat(i) != h.seat(
                j,
            ) by {
                assert(g.seat(i) != g.seat(j));
            }
            assert forall|i: int, k: int|
                0 <= i < h.players.len() && 0 <= k < h.available_pos.len() implies h.seat(i)
                != h.available_pos[k] by {
                assert(g.seat(i) != g.available_pos[k]);
            }
        }
    }
}

/// A request for a seat leaves a well-formed session well-formed.
pub proof fn lemma_seat_keeps_wf(
    g: GameView,
    c: ConnectView,
    game_id: usize,
    private_key: Seq<char>,
    facing: u8,
)
    requires
        g.wf(),
    ensures
        after_seat(g, c, game_id, private_key, facing).wf(),
{
    if !is_full(g) {
        let h = after_seat(g, c, game_id, private_key, facing);
        let n = g.players.len() as int;
        assert(h.players.len() == n + 1);
        assert(h.available_pos.len() == g.available_pos.len() - 1);
        assert(h.seat(n) == g.available_pos[0]);
        assert forall|i: int| 0 <= i < n implies h.seat(i) == g.seat(i) && h.players[i]
            == g.players[i] by {}
        assert forall|k: int| 0 <= k < h.available_pos.len() implies h.available_pos[k]
            == g.available_pos[k + 1] by {}
        assert(h.seats_distinct()) by {
            assert forall|i: int, j: int| 0 <= i < j < h.players.len() implies h.seat(i) != h.seat(
                j,
            ) by {
                if j < n {
                    assert(g.seat(i) != g.seat(j));
                } else {
                    assert(g.seat(i) != g.available_pos[0]);
                }
            }
            assert forall|i: int, k: int|
                0 <= i < h.players.len() && 0 <= k < h.available_pos.len() implies h.seat(i)
                != h.available_pos[k] by {
                if i < n {
                    assert(g.seat(i) != g.available_pos[k + 1]);
                } else {
                    assert(g.available_pos[0] != g.available_pos[k + 1]);
                }
            }
            assert forall|k: int, l: int| 0 <= k < l < h.available_pos.len() implies h.available_pos[k]
                != h.available_pos[l] by {
                assert(g.available_pos[k + 1] != g.available_pos[l + 1]);
            }
        }
        lemma_count_same(n as nat, voted_at(g.players), voted_at(h.players));
        assert(voters(h.players) == voters(g.players));
        assert forall|i: int| 0 <= i < h.players.len() implies (
        #[trigger] h.players[i]).been_death_voted_for <= voters(h.players) by {
            if i < n {
                assert(g.players[i].been_death_voted_for <= voters(g.players));
            }
        }
        assert forall|i: int| 0 <= i < h.players.len() implies (#[trigger] h.players[i]).id
            == i by {
            if i < n {
                assert(g.players[i].id == i);
            }
        }
    }
}

/// A submitted move leaves a well-formed session well-formed.
pub proof fn lemma_move_keeps_wf(g: GameView, m: MutationMessageView)
    requires
        g.wf(),
    ensures
        after_move(g, m).wf(),
{
    let h = after_move(g, m);
    assert(same_frame(g, h));
    lemma_frame_keeps_wf(g, h);
}

} // verus!
