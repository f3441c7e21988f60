//! The steps of one session, each proved against the rules.

use vstd::prelude::*;
use crate::actions::{
    action_views, lemma_action_views_add, lemma_action_views_push, Action, Command, Notice, Outcome,
    OutcomeView,
};
use crate::messages::{
    AnimationMessage, CardChoiceMessage, CardOptions, Connect, CreateTurnMessage, DeleteGame,
    GameTickerMessage, MutationMessage, PlayerDied, PlayerJoin, PollPlayerDeathMessage,
};
use crate::models::{Game, MAX_PLAYERS, Mutation, Player};
use crate::rules::{
    active_at, active_humans, addr_ids, advance_actions, advance_opening, advance_reply,
    after_advance, after_animation, after_deal, after_drops, after_move, after_seat, after_tick,
    after_vote, ai_moves, animation_actions, animation_noted, auto_move, bot_connects, count_below,
    deal_actions, done_human_at, drop_notices, except, flags_cleared, human_at, humans_done,
    is_live, late_card, late_moves, lemma_advance_keeps_wf, lemma_count_bound, lemma_frame_keeps_wf,
    lemma_move_keeps_wf, lemma_seat_keeps_wf, lemma_vote_keeps_wf, live_human_at, move_actions,
    newcomer, offer_notices, offer_of, roster, same_frame, seat_actions, seat_reply, tick_actions,
    vote_actions, vote_counted, voted_at, voters, waiting_at, TurnDrawsView,
};
use crate::text::{bot_name, game_full};

verus! {

/// Whether a card is among those on offer.
pub fn contains_card(options: &Vec<u8>, card: u8) -> (found: bool)
    ensures
        found == options@.contains(card),
{
    let mut i: usize = 0;
    while i < options.len()
        invariant
            i <= options.len(),
            forall|j: int| 0 <= j < i ==> options@[j] != card,
        decreases options.len() - i,
    {
        if options[i] == card {
            return true;
        }
        i += 1;
    }
    false
}

/// The random values that an advance may use: the characters of the
/// computer players that fill a lobby, and for each seat the index of the
/// offered card to play for a person who is late, the card to play for a
/// computer player that is late, and the card that a computer player plays
/// in the turn that begins.
#[derive(Debug, PartialEq, Eq)]
pub struct TurnDraws {
    pub characters: Vec<u8>,
    pub picks: Vec<usize>,
    pub late_cards: Vec<u8>,
    pub next_cards: Vec<u8>,
}

impl View for TurnDraws {
    type V = TurnDrawsView;

    open spec fn view(&self) -> TurnDrawsView {
        TurnDrawsView {
            characters: self.characters@,
            picks: self.picks@,
            late_cards: self.late_cards@,
            next_cards: self.next_cards@,
        }
    }
}

/// The three cards of an offer, as a list.
pub fn offer_from(cards: (u8, u8, u8)) -> (offer: Vec<u8>)
    ensures
        offer@ == offer_of(cards),
{
    let mut offer: Vec<u8> = Vec::new();
    offer.push(cards.0);
    offer.push(cards.1);
    offer.push(cards.2);
    assert(offer@ =~= offer_of(cards));
    offer
}

/// A copy of a list of participants.
pub fn copy_ids(ids: &Vec<usize>) -> (copy: Vec<usize>)
    ensures
        copy@ == ids@,
{
    let mut copy: Vec<usize> = Vec::new();
    let mut i: usize = 0;
    while i < ids.len()
        invariant
            i <= ids.len(),
            copy@ == ids@.take(i as int),
        decreases ids.len() - i,
    {
        copy.push(ids[i]);
        assert(ids@.take(i + 1) =~= ids@.take(i as int).push(ids@[i as int]));
        i += 1;
    }
    assert(ids@.take(ids.len() as int) =~= ids@);
    copy
}

/// The participants listed, without the one who caused the notice.
pub fn without_origin(ids: Vec<usize>, ori: Option<usize>) -> (rest: Vec<usize>)
    ensures
        rest@ == except(ids@, ori),
{
    let mut rest: Vec<usize> = Vec::new();
    let mut i: usize = 0;
    while i < ids.len()
        invariant
            i <= ids.len(),
            rest@ == except(ids@.take(i as int), ori),
        decreases ids.len() - i,
    {
        proof {
            assert(ids@.take(i + 1).drop_last() =~= ids@.take(i as int));
        }
        let keep = match ori {
            Some(o) => o != ids[i],
            None => true,
        };
        if keep {
            rest.push(ids[i]);
        }
        i += 1;
    }
    proof {
        assert(ids@.take(ids.len() as int) =~= ids@);
    }
    rest
}

/// The action that sends a notice to the participants listed, but for the
/// one who caused it.
pub fn broadcast_to_game(
    notice: Notice,
    ori_player_index: Option<usize>,
    game_id: usize,
    player_ids: Vec<usize>,
) -> (action: Action)
    ensures
        action@ == (crate::actions::ActionView::Broadcast {
            game_id,
            player_ids: except(player_ids@, ori_player_index),
            notice: notice@,
        }),
{
    Action::Broadcast { game_id, player_ids: without_origin(player_ids, ori_player_index), notice }
}

/// The action that sends a text to the participants listed, but for the one
/// who caused it.
pub fn broadcast_to_game_str(
    json_string: String,
    ori_player_index: Option<usize>,
    game_id: usize,
    player_ids: Vec<usize>,
) -> (action: Action)
    ensures
        action@ == (crate::actions::ActionView::Broadcast {
            game_id,
            player_ids: except(player_ids@, ori_player_index),
            notice: crate::actions::NoticeView::Text(json_string@),
        }),
{
    broadcast_to_game(Notice::Text(json_string), ori_player_index, game_id, player_ids)
}

impl Game {
    /// The participants with a connection, by index.
    pub fn get_cloned_players_id_addr(&self) -> (ids: Vec<usize>)
        ensures
            ids@ == addr_ids(self@.players),
    {
        let mut ids: Vec<usize> = Vec::new();
        let mut i: usize = 0;
        while i < self.players.len()
            invariant
                i <= self.players.len(),
                ids@ == addr_ids(self@.players.take(i as int)),
            decreases self.players.len() - i,
        {
            proof {
                assert(self@.players.take(i + 1).drop_last() =~= self@.players.take(i as int));
            }
            if self.players[i].has_addr {
                ids.push(i);
            }
            i += 1;
        }
        proof {
            assert(self@.players.take(self.players.len() as int) =~= self@.players);
        }
        ids
    }

    /// Takes a submitted move: it is recorded and passed on to the others
    /// if it carries the seat's secret and its card may be played, and
    /// answered with a refusal otherwise.
    pub fn submit_move(&mut self, m: MutationMessage) -> (actions: Vec<Action>)
        ensures
            old(self)@.wf() ==> final(self)@.wf(),
            final(self)@ == after_move(old(self)@, m@),
            action_views(actions@) == move_actions(old(self)@, m@),
    {
        proof {
            if old(self)@.wf() {
                lemma_move_keeps_wf(old(self)@, m@);
            }
        }
        let mut actions: Vec<Action> = Vec::new();
        let pid = m.player_id;
        if pid >= self.players.len() {
            assert(action_views(actions@) =~= move_actions(old(self)@, m@));
            return actions;
        }
        let ids = self.get_cloned_players_id_addr();
        if self.players[pid].private_key == m.pk {
            let allowed = self.players[pid].is_ai || match &self.players[pid].card_options {
                Some(options) => contains_card(options, m.mutation.card_type),
                None => false,
            };
            if allowed {
                self.players[pid].previous_choices.push(m.mutation);
                self.players[pid].card_options = None;
                actions.push(
                    broadcast_to_game(Notice::Move(m.mutation), Some(pid), m.game_id, ids),
                );
                assert(self@.players =~= after_move(old(self)@, m@).players);
            } else if self.players[pid].has_addr {
                actions.push(
                    Action::Send {
                        game_id: m.game_id,
                        player_id: pid,
                        notice: Notice::Text("Card not in option".to_owned()),
                    },
                );
            }
        } else if self.players[pid].has_addr {
            actions.push(
                Action::Send {
                    game_id: m.game_id,
                    player_id: pid,
                    notice: Notice::Text("Wrong pk".to_owned()),
                },
            );
        }
        assert(action_views(actions@) =~= move_actions(old(self)@, m@));
        actions
    }

    /// How many participants are persons still in the game.
    pub fn get_real_active_players(&self) -> (count: usize)
        ensures
            count == active_humans(self@.players),
    {
        let mut count: usize = 0;
        let mut i: usize = 0;
        while i < self.players.len()
            invariant
                i <= self.players.len(),
                count <= i,
                count == count_below(i as nat, human_at(self@.players)),
            decreases self.players.len() - i,
        {
            if !self.players[i].is_ai && self.players[i].active {
                count += 1;
            }
            i += 1;
        }
        count
    }

    /// Takes a death vote: an accepted vote marks the voter and counts
    /// against the target, who leaves the game once the votes against it
    /// reach half of the persons still in the game.
    pub fn cast_death_vote(&mut self, v: PollPlayerDeathMessage) -> (actions: Vec<Action>)
        requires
            old(self)@.wf(),
        ensures
            final(self)@.wf(),
            final(self)@ == after_vote(old(self)@, v@),
            action_views(actions@) == vote_actions(old(self)@, v@),
    {
        let mut actions: Vec<Action> = Vec::new();
        let n = self.players.len();
        if v.self_id >= n || v.other_id >= n {
            assert(action_views(actions@) =~= vote_actions(old(self)@, v@));
            return actions;
        }
        if self.players[v.self_id].has_death_voted || !(v.pk == self.players[v.self_id].private_key)
            || !self.players[v.other_id].active {
            assert(action_views(actions@) =~= vote_actions(old(self)@, v@));
            return actions;
        }
        let ids = self.get_cloned_players_id_addr();
        let ghost counted = vote_counted(old(self)@, v@);
        proof {
            lemma_vote_keeps_wf(old(self)@, v@);
            lemma_count_bound(old(self)@.players.len(), voted_at(old(self)@.players));
            assert(old(self)@.players[v.other_id as int].been_death_voted_for <= voters(
                old(self)@.players,
            ));
        }
        self.players[v.self_id].has_death_voted = true;
        self.players[v.other_id].been_death_voted_for += 1;
        assert(self@.players =~= counted);
        let humans = self.get_real_active_players();
        proof {
            lemma_count_bound(counted.len(), human_at(counted));
        }
        if 2 * self.players[v.other_id].been_death_voted_for >= humans {
            actions.push(
                broadcast_to_game(
                    Notice::Died(PlayerDied { user_id: v.other_id }),
                    None,
                    v.game_id,
                    ids,
                ),
            );
            self.players[v.other_id].active = false;
            assert(self@.players =~= after_vote(old(self)@, v@).players);
        }
        assert(action_views(actions@) =~= vote_actions(old(self)@, v@));
        actions
    }

    /// How many persons still in the game have reported the end of their
    /// animations.
    pub fn count_humans_done(&self) -> (count: usize)
        ensures
            count == humans_done(self@.players),
    {
        let mut count: usize = 0;
        let mut i: usize = 0;
        while i < self.players.len()
            invariant
                i <= self.players.len(),
                count <= i,
                count == count_below(i as nat, done_human_at(self@.players)),
            decreases self.players.len() - i,
        {
            let p = &self.players[i];
            if !p.is_ai && p.active && p.animation_done {
                count += 1;
            }
            i += 1;
        }
        count
    }

    /// Notes that a participant has played its animations. Where the turn
    /// has stalled, a delayed advance is asked for, once per turn.
    pub fn note_animation(&mut self, a: AnimationMessage) -> (actions: Vec<Action>)
        requires
            old(self)@.wf(),
        ensures
            final(self)@.wf(),
            final(self)@ == after_animation(old(self)@, a@),
            action_views(actions@) == animation_actions(old(self)@, a@),
    {
        let mut actions: Vec<Action> = Vec::new();
        if a.player_id >= self.players.len() {
            assert(action_views(actions@) =~= animation_actions(old(self)@, a@));
            return actions;
        }
        self.players[a.player_id].animation_done = true;
        assert(self@.players =~= animation_noted(old(self)@, a@).players);
        if self.game_started && !self.has_loop_countdown {
            let done = self.count_humans_done();
            let humans = self.get_real_active_players();
            proof {
                crate::rules::lemma_count_bound(self@.players.len(), human_at(self@.players));
                crate::rules::lemma_count_bound(self@.players.len(), done_human_at(self@.players));
                assert(self@.players.len() <= crate::models::MAX_PLAYERS);
            }
            if done < humans && 10 * done >= 9 * humans {
                self.has_loop_countdown = true;
                actions.push(
                    Action::ScheduleAdvance { game_id: a.game_id, turn_index: self.turn_index },
                );
            }
        }
        proof {
            assert(same_frame(old(self)@, self@));
            lemma_frame_keeps_wf(old(self)@, self@);
            assert(action_views(actions@) =~= animation_actions(old(self)@, a@));
        }
        actions
    }

    /// Whether the connection of a seat is reported as up.
    pub fn seat_is_live(live: &Vec<bool>, i: usize) -> (up: bool)
        ensures
            up == is_live(live@, i as int),
    {
        i < live.len() && live[i]
    }

    /// A tick of the session: participants whose connection went away
    /// leave the game; then, unless someone connected still owes the end of
    /// its animations, the session ends or moves on to the next turn.
    pub fn tick(&mut self, t: GameTickerMessage) -> (actions: Vec<Action>)
        requires
            old(self)@.wf(),
        ensures
            final(self)@.wf(),
            final(self)@ == after_tick(old(self)@, t@),
            action_views(actions@) == tick_actions(old(self)@, t@),
    {
        let mut actions: Vec<Action> = Vec::new();
        if !self.game_started {
            assert(action_views(actions@) =~= tick_actions(old(self)@, t@));
            return actions;
        }
        let ids = self.get_cloned_players_id_addr();
        let n = self.players.len();
        let ghost before = old(self)@.players;
        let ghost dropped = after_drops(before, t@.live);
        let mut waiting: usize = 0;
        let mut humans: usize = 0;
        let mut alive: usize = 0;
        let mut i: usize = 0;
        while i < n
            invariant
                n == self.players.len(),
                i <= n,
                self@.players.len() == before.len(),
                ids@ == addr_ids(before),
                before == old(self)@.players,
                dropped == after_drops(before, t@.live),
                self.board_size == old(self).board_size,
                self.game_started == old(self).game_started,
                self.turn_index == old(self).turn_index,
                self.available_pos == old(self).available_pos,
                self.game_countdown_active == old(self).game_countdown_active,
                self.has_loop_countdown == old(self).has_loop_countdown,
                forall|j: int| 0 <= j < i ==> (#[trigger] self.players@[j])@ == dropped[j],
                forall|j: int| i <= j < n ==> (#[trigger] self.players@[j])@ == before[j],
                action_views(actions@) == drop_notices(t.game_id, before, t@.live, i as nat),
                waiting <= i,
                humans <= i,
                alive <= i,
                waiting == count_below(i as nat, waiting_at(dropped, t@.live)),
                humans == count_below(i as nat, live_human_at(dropped, t@.live)),
                alive == count_below(i as nat, active_at(dropped)),
            decreases n - i,
        {
            let up = Game::seat_is_live(&t.live, i);
            assert(self@.players[i as int] == before[i as int]);
            if self.players[i].active && self.players[i].has_addr && !up {
                self.players[i].active = false;
                let ghost prior = actions@;
                actions.push(
                    broadcast_to_game(
                        Notice::Died(PlayerDied { user_id: i }),
                        None,
                        t.game_id,
                        copy_ids(&ids),
                    ),
                );
                proof {
                    lemma_action_views_push(prior, actions@.last());
                    assert(actions@ =~= prior.push(actions@.last()));
                    assert(except(ids@, None) =~= ids@) by {
                        lemma_except_none(ids@);
                    }
                }
            }
            assert(self@.players[i as int] == dropped[i as int]);
            if self.players[i].has_addr && up && !self.players[i].animation_done {
                waiting += 1;
            }
            if self.players[i].has_addr && up && !self.players[i].is_ai {
                humans += 1;
            }
            if self.players[i].active {
                alive += 1;
            }
            i += 1;
        }
        assert(self@.players =~= dropped);
        if waiting == 0 {
            if humans == 0 || alive == 1 {
                let ghost prior = actions@;
                actions.push(Action::Enqueue(Command::DeleteGame(DeleteGame { game_id: t.game_id })));
                proof {
                    lemma_action_views_push(prior, actions@.last());
                }
            } else {
                let mut k: usize = 0;
                while k < n
                    invariant
                        n == self.players.len(),
                        k <= n,
                        self@.players.len() == dropped.len(),
                        self.board_size == old(self).board_size,
                        self.game_started == old(self).game_started,
                        self.turn_index == old(self).turn_index,
                        self.available_pos == old(self).available_pos,
                        self.game_countdown_active == old(self).game_countdown_active,
                        self.has_loop_countdown == old(self).has_loop_countdown,
                        forall|j: int|
                            0 <= j < k ==> (#[trigger] self.players@[j])@
                                == crate::rules::animations_cleared(dropped)[j],
                        forall|j: int| k <= j < n ==> (#[trigger] self.players@[j])@ == dropped[j],
                    decreases n - k,
                {
                    self.players[k].animation_done = false;
                    k += 1;
                }
                assert(self@.players =~= crate::rules::animations_cleared(dropped));
                let ghost prior = actions@;
                actions.push(
                    Action::Enqueue(
                        Command::CreateTurn(
                            CreateTurnMessage { game_id: t.game_id, check_turn_id: None },
                        ),
                    ),
                );
                proof {
                    lemma_action_views_push(prior, actions@.last());
                }
            }
        }
        proof {
            assert(same_frame(old(self)@, self@));
            lemma_frame_keeps_wf(old(self)@, self@);
        }
        actions
    }
}

/// Leaving nobody out of a list leaves the list as it is.
pub proof fn lemma_except_none(ids: Seq<usize>)
    ensures
        except(ids, None) == ids,
    decreases ids.len(),
{
    if ids.len() > 0 {
        lemma_except_none(ids.drop_last());
        assert(ids.drop_last().push(ids.last()) =~= ids);
    }
}

impl Game {
    /// Deals a fresh offer to everyone still in the game, participant `i`
    /// getting `cards[i]`, and sends it to those with a connection.
    pub fn deal(&mut self, m: CardChoiceMessage, cards: &Vec<(u8, u8, u8)>) -> (actions: Vec<
        Action,
    >)
        requires
            old(self)@.wf(),
            cards@.len() == old(self)@.players.len(),
        ensures
            final(self)@.wf(),
            final(self)@ == after_deal(old(self)@, cards@),
            action_views(actions@) == deal_actions(old(self)@, m, cards@),
    {
        let mut actions: Vec<Action> = Vec::new();
        let n = self.players.len();
        let ghost before = old(self)@.players;
        let ghost dealt = after_deal(old(self)@, cards@).players;
        let mut i: usize = 0;
        while i < n
            invariant
                n == self.players.len(),
                n == cards@.len(),
                i <= n,
                before.len() == n,
                dealt.len() == n,
                before == old(self)@.players,
                dealt == after_deal(old(self)@, cards@).players,
                self.board_size == old(self).board_size,
                self.game_started == old(self).game_started,
                self.turn_index == old(self).turn_index,
                self.available_pos == old(self).available_pos,
                self.game_countdown_active == old(self).game_countdown_active,
                self.has_loop_countdown == old(self).has_loop_countdown,
                forall|j: int| 0 <= j < i ==> (#[trigger] self.players@[j])@ == dealt[j],
                forall|j: int| i <= j < n ==> (#[trigger] self.players@[j])@ == before[j],
                action_views(actions@) == offer_notices(m, before, cards@, i as nat),
            decreases n - i,
        {
            assert(self.players@[i as int]@ == before[i as int]);
            if self.players[i].active {
                self.players[i].card_options = Some(offer_from(cards[i]));
                if self.players[i].has_addr {
                    let ghost prior = actions@;
                    actions.push(
                        Action::Send {
                            game_id: m.game_id,
                            player_id: i,
                            notice: Notice::Offer(
                                CardOptions {
                                    card_options: offer_from(cards[i]),
                                    player_id: self.players[i].id,
                                    turn_id: m.turn_id,
                                },
                            ),
                        },
                    );
                    proof {
                        lemma_action_views_push(prior, actions@.last());
                    }
                }
            }
            i += 1;
        }
        proof {
            assert(self@.players =~= dealt);
            assert(same_frame(old(self)@, self@));
            lemma_frame_keeps_wf(old(self)@, self@);
        }
        actions
    }
}

/// The command that plays a card on behalf of a participant.
pub fn play_for(game_id: usize, p: &Player, card: u8, turn_id: usize) -> (action: Action)
    ensures
        action@ == auto_move(game_id, p@, card, turn_id),
{
    Action::Enqueue(
        Command::Mutation(
            MutationMessage {
                mutation: Mutation { user_id: p.id, card_type: card, card_location: 0 },
                player_id: p.id,
                pk: p.private_key.clone(),
                turn_id,
                game_id,
            },
        ),
    )
}

/// The card played for a participant who owes a move when the turn ends,
/// if any.
pub fn pick_late_card(p: &Player, turn_index: usize, pick: usize, late: u8) -> (card: Option<u8>)
    ensures
        card == late_card(p@, turn_index, pick, late),
{
    if !(p.active && p.previous_choices.len() < turn_index) {
        None
    } else if p.is_ai {
        Some(late)
    } else {
        match &p.card_options {
            Some(options) => if pick < options.len() {
                Some(options[pick])
            } else {
                None
            },
            None => None,
        }
    }
}

impl Game {
    /// The requests for the computer players that fill the free seats.
    pub fn fill_slots_with_ai(&self, game_id: usize, characters: &Vec<u8>) -> (actions: Vec<Action>)
        requires
            self@.players.len() <= MAX_PLAYERS,
            characters@.len() == MAX_PLAYERS,
        ensures
            action_views(actions@) == bot_connects(
                game_id,
                characters@,
                (MAX_PLAYERS - self@.players.len()) as nat,
            ),
    {
        let mut actions: Vec<Action> = Vec::new();
        let free = MAX_PLAYERS - self.players.len();
        let mut n: usize = 0;
        while n < free
            invariant
                n <= free,
                free <= MAX_PLAYERS,
                characters@.len() == MAX_PLAYERS,
                action_views(actions@) == bot_connects(game_id, characters@, n as nat),
            decreases free - n,
        {
            let ghost prior = actions@;
            actions.push(
                Action::Enqueue(
                    Command::Connect(
                        Connect {
                            username: bot_name(n),
                            character_type: characters[n],
                            has_addr: false,
                            game_id: Some(game_id),
                        },
                    ),
                ),
            );
            proof {
                lemma_action_views_push(prior, actions@.last());
            }
            n += 1;
        }
        actions
    }

    /// The moves made for those who owe one when the turn ends.
    pub fn late_moves_for(&self, game_id: usize, draws: &TurnDraws) -> (actions: Vec<Action>)
        requires
            draws@.fits(self@),
        ensures
            action_views(actions@) == late_moves(
                game_id,
                self@.players,
                self@.turn_index,
                draws@,
                self@.players.len(),
            ),
    {
        let mut actions: Vec<Action> = Vec::new();
        let mut i: usize = 0;
        while i < self.players.len()
            invariant
                i <= self.players.len(),
                draws@.fits(self@),
                action_views(actions@) == late_moves(
                    game_id,
                    self@.players,
                    self@.turn_index,
                    draws@,
                    i as nat,
                ),
            decreases self.players.len() - i,
        {
            let p = &self.players[i];
            match pick_late_card(p, self.turn_index, draws.picks[i], draws.late_cards[i]) {
                Some(card) => {
                    let ghost prior = actions@;
                    actions.push(play_for(game_id, p, card, self.turn_index));
                    proof {
                        lemma_action_views_push(prior, actions@.last());
                    }
                },
                None => {},
            }
            i += 1;
        }
        actions
    }

    /// The moves of the computer players for the turn that begins.
    pub fn ai_moves_for(&self, game_id: usize, draws: &TurnDraws) -> (actions: Vec<Action>)
        requires
            draws@.fits(self@),
        ensures
            action_views(actions@) == ai_moves(
                game_id,
                self@.players,
                self@.turn_index,
                draws@,
                self@.players.len(),
            ),
    {
        let mut actions: Vec<Action> = Vec::new();
        let mut i: usize = 0;
        while i < self.players.len()
            invariant
                i <= self.players.len(),
                draws@.fits(self@),
                action_views(actions@) == ai_moves(
                    game_id,
                    self@.players,
                    self@.turn_index,
                    draws@,
                    i as nat,
                ),
            decreases self.players.len() - i,
        {
            let p = &self.players[i];
            if p.is_ai && p.active {
                let ghost prior = actions@;
                actions.push(play_for(game_id, p, draws.next_cards[i], self.turn_index));
                proof {
                    lemma_action_views_push(prior, actions@.last());
                }
            }
            i += 1;
        }
        actions
    }

    /// Clears the flags of the turn for every participant.
    pub fn reset_flags(&mut self)
        ensures
            final(self)@ == (crate::models::GameView {
                players: flags_cleared(old(self)@.players),
                ..old(self)@
            }),
    {
        let n = self.players.len();
        let ghost cleared = flags_cleared(old(self)@.players);
        let mut i: usize = 0;
        while i < n
            invariant
                n == self.players.len(),
                i <= n,
                cleared == flags_cleared(old(self)@.players),
                cleared.len() == n,
                self.board_size == old(self).board_size,
                self.game_started == old(self).game_started,
                self.turn_index == old(self).turn_index,
                self.available_pos == old(self).available_pos,
                self.game_countdown_active == old(self).game_countdown_active,
                self.has_loop_countdown == old(self).has_loop_countdown,
                forall|j: int| 0 <= j < i ==> (#[trigger] self.players@[j])@ == cleared[j],
                forall|j: int| i <= j < n ==> self.players@[j] == old(self).players@[j],
            decreases n - i,
        {
            self.players[i].animation_done = false;
            self.players[i].has_death_voted = false;
            self.players[i].been_death_voted_for = 0;
            i += 1;
        }
        assert(self@.players =~= cleared);
    }

    /// A request to advance. A stale request is dropped. In the lobby the
    /// game starts: the countdown ends and computer players are asked for
    /// the free seats. In a running game a move is made for everyone who
    /// owes one and the turn goes up by one. Either way a fresh offer is
    /// asked for, and a move for every computer player.
    pub fn advance(&mut self, m: CreateTurnMessage, draws: &TurnDraws) -> (out: Outcome)
        requires
            old(self)@.wf(),
            draws@.fits(old(self)@),
            old(self)@.turn_index < usize::MAX,
        ensures
            final(self)@.wf(),
            final(self)@ == after_advance(old(self)@, m),
            out@ == (OutcomeView {
                reply: advance_reply(old(self)@, m),
                actions: advance_actions(old(self)@, m, draws@),
            }),
    {
        proof {
            lemma_advance_keeps_wf(old(self)@, m);
        }
        self.has_loop_countdown = false;
        let mut actions: Vec<Action> = Vec::new();
        match m.check_turn_id {
            Some(turn) => {
                if turn != self.turn_index {
                    assert(action_views(actions@) =~= advance_actions(old(self)@, m, draws@));
                    return Outcome { reply: 0, actions };
                }
            },
            None => {},
        }
        if !self.game_started {
            if self.game_countdown_active {
                actions.push(Action::CancelCountdown { game_id: m.game_id });
            }
            let ghost stop = actions@;
            let mut bots = self.fill_slots_with_ai(m.game_id, &draws.characters);
            let ghost bots_before = bots@;
            actions.append(&mut bots);
            proof {
                lemma_action_views_add(stop, bots_before);
                assert(action_views(stop) =~= if old(self)@.game_countdown_active {
                    seq![crate::actions::ActionView::CancelCountdown { game_id: m.game_id }]
                } else {
                    Seq::empty()
                });
            }
            self.game_countdown_active = false;
            self.game_started = true;
        } else {
            let mut late = self.late_moves_for(m.game_id, draws);
            let ghost late_before = late@;
            actions.append(&mut late);
            assert(actions@ =~= late_before);
            self.reset_flags();
            self.turn_index += 1;
        }
        assert(self@ == after_advance(old(self)@, m));
        assert(action_views(actions@) == advance_opening(old(self)@, m, draws@));
        let ghost opening = actions@;
        actions.push(
            Action::Enqueue(
                Command::CardChoice(
                    CardChoiceMessage { game_id: m.game_id, turn_id: self.turn_index },
                ),
            ),
        );
        let ghost offered = actions@;
        let mut moves = self.ai_moves_for(m.game_id, draws);
        let ghost moves_before = moves@;
        actions.append(&mut moves);
        proof {
            lemma_action_views_push(opening, offered.last());
            lemma_action_views_add(offered, moves_before);
        }
        Outcome { reply: m.game_id, actions }
    }
}

impl Game {
    /// The public records of all participants, each as an answer to the
    /// one who asked.
    pub fn roster_for(&self) -> (actions: Vec<Action>)
        ensures
            action_views(actions@) == roster(self@.players, self@.players.len()),
    {
        let mut actions: Vec<Action> = Vec::new();
        let mut i: usize = 0;
        while i < self.players.len()
            invariant
                i <= self.players.len(),
                action_views(actions@) == roster(self@.players, i as nat),
            decreases self.players.len() - i,
        {
            let ghost prior = actions@;
            actions.push(Action::Reply(Notice::Join(PlayerJoin::from(&self.players[i]))));
            proof {
                lemma_action_views_push(prior, actions@.last());
            }
            i += 1;
        }
        actions
    }

    /// A request for a seat. A full session refuses it. Otherwise the
    /// newcomer takes the first free square; a newcomer with a connection
    /// is sent its own record and the roster, the others are told of it, a
    /// lobby that is now full asks for the first turn, and a computer player
    /// makes its first move at once.
    pub fn seat(
        &mut self,
        c: Connect,
        game_id: usize,
        private_key: String,
        facing: u8,
        card: u8,
    ) -> (out: Outcome)
        requires
            old(self)@.wf(),
        ensures
            final(self)@.wf(),
            final(self)@ == after_seat(old(self)@, c@, game_id, private_key@, facing),
            out@ == (OutcomeView {
                reply: seat_reply(old(self)@),
                actions: seat_actions(old(self)@, c@, game_id, private_key@, facing, card),
            }),
    {
        proof {
            lemma_seat_keeps_wf(old(self)@, c@, game_id, private_key@, facing);
        }
        let mut actions: Vec<Action> = Vec::new();
        if self.available_pos.len() == 0 {
            if c.has_addr {
                actions.push(Action::Reply(Notice::Text(game_full(game_id))));
            }
            assert(action_views(actions@) =~= seat_actions(
                old(self)@,
                c@,
                game_id,
                private_key@,
                facing,
                card,
            ));
            return Outcome { reply: 0, actions };
        }
        let ghost me = newcomer(old(self)@, c@, game_id, private_key@, facing);
        let pos = self.available_pos.remove(0);
        let player_id = self.players.len();
        let turn = self.turn_index;
        let has_addr = c.has_addr;
        if has_addr {
            actions.push(
                Action::Reply(
                    Notice::Seat(
                        Player::with_draws(
                            player_id,
                            game_id,
                            c.username.clone(),
                            c.character_type,
                            pos,
                            !has_addr,
                            has_addr,
                            private_key.clone(),
                            facing,
                        ),
                    ),
                ),
            );
        }
        self.players.push(
            Player::with_draws(
                player_id,
                game_id,
                c.username,
                c.character_type,
                pos,
                !has_addr,
                has_addr,
                private_key,
                facing,
            ),
        );
        assert(self@.players =~= old(self)@.players.push(me));
        assert(self@ == after_seat(old(self)@, c@, game_id, private_key@, facing));
        if has_addr {
            let ghost first = actions@;
            let mut others = self.roster_for();
            let ghost others_before = others@;
            actions.append(&mut others);
            proof {
                lemma_action_views_add(first, others_before);
                assert(action_views(first) =~= seq![
                    crate::actions::ActionView::Reply(crate::actions::NoticeView::Seat(me)),
                ]);
            }
        }
        let ghost welcome = actions@;
        let ids = self.get_cloned_players_id_addr();
        actions.push(
            broadcast_to_game(
                Notice::Join(PlayerJoin::from(&self.players[player_id])),
                Some(player_id),
                game_id,
                ids,
            ),
        );
        let ghost told = actions@;
        proof {
            lemma_action_views_push(welcome, told.last());
        }
        if self.players.len() == MAX_PLAYERS && !self.game_started {
            actions.push(
                Action::Enqueue(
                    Command::CreateTurn(CreateTurnMessage { game_id, check_turn_id: None }),
                ),
            );
            proof {
                lemma_action_views_push(told, actions@.last());
            }
        }
        let ghost started = actions@;
        if !has_addr {
            actions.push(play_for(game_id, &self.players[player_id], card, turn));
            proof {
                lemma_action_views_push(started, actions@.last());
            }
        }
        assert(action_views(actions@) =~= seat_actions(
            old(self)@,
            c@,
            game_id,
            private_key@,
            facing,
            card,
        ));
        Outcome { reply: player_id, actions }
    }
}

} // verus!
