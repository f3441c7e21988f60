//! The coordinator: every session of the process and the handlers that
//! step them.

use vstd::prelude::*;
use std::collections::HashMap;
use rand::rngs::ThreadRng;
use vstd::std_specs::iter::IteratorSpec;
use crate::actions::{
    action_views, lemma_action_views_add, lemma_action_views_push, Action, ActionView, BroadcastObj,
    BroadcastStr, Command, Notice, Outcome, OutcomeView,
};
use crate::config::GameConfig;
use crate::messages::{
    AnimationMessage, CardChoiceMessage, Connect, CountDownMessage, CreateTurnMessage, DeleteGame,
    Disconnect, GameTickerMessage, MessageFullClean, MessagePrune, MutationMessage,
    PollPlayerDeathMessage,
};
use crate::models::{BOARD_SIZE, Game, GameView, MAX_PLAYERS};
use crate::random::{
    build_sampler, draw_below, draw_key, draw_u32, lemma_total_bound, lemma_total_covers,
    sample_index, sampler_weights, thread_rng, total_weight, weight_total, CardSampler,
};
use crate::registry::{
    after_countdown, animation_outcome, animation_step, broadcast_obj_outcome,
    broadcast_str_outcome, card_choice_outcome, card_choice_step, card_ok, connect_outcome,
    connect_step, connect_target, countdown_outcome, countdown_step, create_turn_outcome,
    create_turn_step, delete_outcome, deserted, first_open, handled, is_first_open, is_open,
    lemma_lobby_wf, lists, lobby, lobby_actions, mutation_outcome, mutation_step, offers_valid,
    on_board, opens_session, pruned, ready_for, removal_outcome, seat_draws_usable,
    seat_draws_valid, sessions_wf, squares_distinct, teardown, teardowns, tick_outcome, tick_step,
    turn_draws_valid, vote_outcome, vote_step, with_lobby, SeatDrawsView, Sessions,
};
use crate::rules::{lemma_move_keeps_wf, TurnDrawsView};
use crate::session::{broadcast_to_game, broadcast_to_game_str, TurnDraws};
use crate::text::removed;

verus! {

broadcast use vstd::std_specs::hash::group_hash_axioms;

/// All sessions of one process, the random source and the card sampler.
pub struct GameServer {
    games: HashMap<usize, Game>,
    rng: ThreadRng,
    card_dist: CardSampler,
    gc: GameConfig,
}

impl View for GameServer {
    type V = Sessions;

    closed spec fn view(&self) -> Sessions {
        self.games@.map_values(|g: Game| g@)
    }
}

/// The random values that a request for a seat may use: the identifier and
/// the squares of a session that has to be opened, the secret and the
/// facing of the newcomer, and the first card of a computer player.
#[derive(Debug, PartialEq, Eq)]
pub struct SeatDraws {
    pub session_key: usize,
    pub positions: Vec<(u16, u16)>,
    pub private_key: String,
    pub facing: u8,
    pub card: u8,
}

impl View for SeatDraws {
    type V = SeatDrawsView;

    open spec fn view(&self) -> SeatDrawsView {
        SeatDrawsView {
            session_key: self.session_key,
            positions: self.positions@,
            private_key: self.private_key@,
            facing: self.facing,
            card: self.card,
        }
    }
}

/// How many squares of the board a participant can start on.
pub const BOARD_CELLS: usize = 128;

/// The `k`-th square of the board, counted column by column from the
/// second row on.
pub open spec fn cell_at(k: int) -> (u16, u16) {
    ((k / 8) as u16, (k % 8 + 1) as u16)
}

/// All squares that a participant can start on.
pub fn board_cells() -> (cells: Vec<(u16, u16)>)
    ensures
        cells@.len() == BOARD_CELLS,
        forall|k: int| 0 <= k < BOARD_CELLS ==> #[trigger] cells@[k] == cell_at(k),
{
    let mut cells: Vec<(u16, u16)> = Vec::new();
    let mut x: u16 = 0;
    while x < BOARD_SIZE.0
        invariant
            x <= BOARD_SIZE.0,
            cells@.len() == x * 8,
            forall|k: int| 0 <= k < cells@.len() ==> #[trigger] cells@[k] == cell_at(k),
        decreases BOARD_SIZE.0 - x,
    {
        let mut y: u16 = 1;
        while y < BOARD_SIZE.1
            invariant
                x < BOARD_SIZE.0,
                1 <= y <= BOARD_SIZE.1,
                cells@.len() == x * 8 + (y - 1),
                forall|k: int| 0 <= k < cells@.len() ==> #[trigger] cells@[k] == cell_at(k),
            decreases BOARD_SIZE.1 - y,
        {
            cells.push((x, y));
            y += 1;
        }
        x += 1;
    }
    cells
}

/// The weights of the cards, in tenths: cards 7 and 8 are never drawn.
pub open spec fn card_weights() -> Seq<u32> {
    seq![
        150u32, 150, 50, 100, 150, 150, 50, 0, 0, 36, 36, 36, 36, 36, 36, 36, 25, 25, 36, 36, 36,
        36, 23, 23, 23, 23, 36, 36, 20, 20, 20, 20, 20, 12, 20, 20, 20, 12,
    ]
}

/// The weights of the cards, in tenths.
pub fn card_table() -> (table: Vec<u32>)
    ensures
        table@ == card_weights(),
{
    let table: Vec<u32> = vec![
        150u32, 150, 50, 100, 150, 150, 50, 0, 0, 36, 36, 36, 36, 36, 36, 36, 25, 25, 36, 36, 36,
        36, 23, 23, 23, 23, 36, 36, 20, 20, 20, 20, 20, 12, 20, 20, 20, 12,
    ];
    assert(table@ =~= card_weights());
    table
}

/// The most cards that a table can hold: a card is named by a byte.
pub const MAX_CARDS: usize = 256;

/// Why a table of weights cannot be used.
#[derive(Clone, Copy, Debug, PartialEq, Eq, Structural)]
pub enum TableError {
    /// The table is empty.
    NoCards,
    /// The table holds more cards than a byte can name.
    TooManyCards,
    /// The weights add up to more than 32 bits hold.
    TotalTooLarge,
    /// No card has a weight.
    AllWeightsZero,
}

/// Why a table of weights cannot be used, if it cannot.
pub open spec fn table_error(weights: Seq<u32>) -> Option<TableError> {
    if weights.len() == 0 {
        Some(TableError::NoCards)
    } else if weights.len() > MAX_CARDS {
        Some(TableError::TooManyCards)
    } else if weight_total(weights) > u32::MAX {
        Some(TableError::TotalTooLarge)
    } else if weight_total(weights) == 0 {
        Some(TableError::AllWeightsZero)
    } else {
        None
    }
}

/// An empty list of actions.
pub fn no_actions() -> (actions: Vec<Action>)
    ensures
        action_views(actions@) == Seq::<ActionView>::empty(),
{
    let actions: Vec<Action> = Vec::new();
    assert(action_views(actions@) =~= Seq::<ActionView>::empty());
    actions
}

/// The timers to stop when a session goes away.
pub fn teardown_of(id: usize, game: &Game) -> (actions: Vec<Action>)
    ensures
        action_views(actions@) == teardown(id, game@),
{
    let mut actions: Vec<Action> = Vec::new();
    actions.push(Action::CancelTicker { game_id: id });
    if game.game_countdown_active {
        actions.push(Action::CancelCountdown { game_id: id });
    }
    assert(action_views(actions@) =~= teardown(id, game@));
    actions
}

impl GameServer {
    /// The weights of the cards, by card.
    pub closed spec fn weights(&self) -> Seq<u32> {
        sampler_weights(self.card_dist)
    }

    /// What holds of the coordinator between any two commands: every
    /// session is well-formed, and the table of weights can be used.
    pub open spec fn wf(&self) -> bool {
        &&& sessions_wf(self@)
        &&& table_error(self.weights()) is None
    }

    /// A coordinator without sessions, with the cards weighted as the table
    /// says, or the reason why the table cannot be used.
    pub fn with_weights(weights: Vec<u32>) -> (made: Result<GameServer, TableError>)
        ensures
            match made {
                Ok(server) => table_error(weights@) is None && server.wf() && server@
                    == Map::<usize, GameView>::empty() && server.weights() == weights@
                    && server.config_view() == (GameConfig { cards: weights@.len() as usize, actions: 0 }),
                Err(e) => table_error(weights@) == Some(e),
            },
    {
        if weights.len() == 0 {
            return Err(TableError::NoCards);
        }
        if weights.len() > MAX_CARDS {
            return Err(TableError::TooManyCards);
        }
        match total_weight(&weights) {
            None => Err(TableError::TotalTooLarge),
            Some(total) => {
                if total == 0 {
                    return Err(TableError::AllWeightsZero);
                }
                let card_dist = build_sampler(&weights).unwrap();
                let server = GameServer {
                    games: HashMap::new(),
                    rng: thread_rng(),
                    card_dist,
                    gc: GameConfig { cards: weights.len(), actions: 0 },
                };
                assert(server@ =~= Map::<usize, GameView>::empty());
                Ok(server)
            },
        }
    }

    /// A coordinator without sessions, with the cards weighted as the game
    /// has them.
    pub fn new() -> (server: GameServer)
        ensures
            server.wf(),
            server@ == Map::<usize, GameView>::empty(),
            server.weights() == card_weights(),
            server.config_view() == (GameConfig { cards: 38, actions: 0 }),
    {
        let table = card_table();
        proof {
            assert forall|i: int| 0 <= i < table@.len() implies #[trigger] table@[i] <= 150 by {}
            lemma_total_bound(table@, 150);
            lemma_total_covers(table@, 0);
            assert(table@.len() * 150 == 5700) by (nonlinear_arith)
                requires
                    table@.len() == 38,
            ;
        }
        let card_dist = build_sampler(&table).unwrap();
        let server = GameServer {
            games: HashMap::new(),
            rng: thread_rng(),
            card_dist,
            gc: GameConfig::default(),
        };
        assert(server@ =~= Map::<usize, GameView>::empty());
        server
    }

    /// Takes a session out to work on it.
    fn take(&mut self, game_id: usize) -> (taken: Option<Game>)
        ensures
            final(self).weights() == old(self).weights(),
            final(self).rng == old(self).rng,
            final(self).card_dist == old(self).card_dist,
            final(self).gc == old(self).gc,
            final(self).games@ == old(self).games@.remove(game_id),
            final(self)@ == old(self)@.remove(game_id),
            taken is Some == old(self)@.contains_key(game_id),
            taken matches Some(game) ==> game@ == old(self)@[game_id] && old(self).games@[game_id]
                == game,
    {
        let taken = self.games.remove(&game_id);
        assert(self@ =~= old(self)@.remove(game_id));
        taken
    }

    /// Puts a session in.
    fn put(&mut self, game_id: usize, game: Game)
        ensures
            final(self).weights() == old(self).weights(),
            final(self).rng == old(self).rng,
            final(self).card_dist == old(self).card_dist,
            final(self).gc == old(self).gc,
            final(self).games@ == old(self).games@.insert(game_id, game),
            final(self)@ == old(self)@.insert(game_id, game@),
    {
        self.games.insert(game_id, game);
        assert(self@ =~= old(self)@.insert(game_id, game@));
    }

    /// The sizes of the card and action tables.
    pub fn config(&self) -> (gc: &GameConfig)
        ensures
            *gc == self.config_view(),
    {
        &self.gc
    }

    /// The sizes of the card and action tables.
    pub closed spec fn config_view(&self) -> GameConfig {
        self.gc
    }

    /// How many sessions there are.
    pub fn session_count(&self) -> (count: usize)
        ensures
            count == self@.dom().len(),
    {
        assert(self@.dom() =~= self.games@.dom());
        self.games.len()
    }

    /// Whether a session exists.
    pub fn has_session(&self, game_id: usize) -> (found: bool)
        ensures
            found == self@.contains_key(game_id),
    {
        self.games.contains_key(&game_id)
    }

    /// A session, if it exists.
    pub fn session(&self, game_id: usize) -> (found: Option<&Game>)
        ensures
            found is Some == self@.contains_key(game_id),
            found matches Some(game) ==> game@ == self@[game_id],
    {
        self.games.get(&game_id)
    }

    /// The identifiers of all sessions, in no particular order.
    pub fn session_ids(&self) -> (ids: Vec<usize>)
        ensures
            ids@.no_duplicates(),
            ids@.to_set() == self@.dom(),
    {
        let mut ids: Vec<usize> = Vec::new();
        let ghost all = vstd::std_specs::hash::spec_keys_iter(&self.games).remaining();
        for k in it: self.games.keys()
            invariant
                it.seq() == all,
                ids@ == all.unref().take(it.index()),
        {
            ids.push(*k);
            assert(all.unref().take(it.index() + 1) =~= all.unref().take(it.index()).push(*k));
        }
        assert(ids@ =~= all.unref());
        assert(self@.dom() =~= self.games@.dom());
        ids
    }

    /// A submitted move: dropped where the session is gone, else taken by
    /// the session.
    pub fn handle_mutation(&mut self, m: MutationMessage) -> (out: Outcome)
        requires
            old(self).wf(),
        ensures
            final(self).wf(),
            final(self).weights() == old(self).weights(),
            final(self)@ == mutation_step(old(self)@, m@),
            out@ == mutation_outcome(old(self)@, m@),
    {
        let game_id = m.game_id;
        let reply = m.player_id;
        let ghost mv = m@;
        match self.take(game_id) {
            Some(mut game) => {
                proof {
                    lemma_move_keeps_wf(game@, mv);
                }
                let actions = game.submit_move(m);
                self.put(game_id, game);
                assert(self@ =~= mutation_step(old(self)@, mv));
                Outcome { reply, actions }
            },
            None => {
                assert(self@ =~= old(self)@);
                Outcome { reply, actions: no_actions() }
            },
        }
    }

    /// A death vote: dropped where the session is gone, else counted by the
    /// session.
    pub fn handle_poll_player_death(&mut self, v: PollPlayerDeathMessage) -> (out: Outcome)
        requires
            old(self).wf(),
        ensures
            final(self).wf(),
            final(self).weights() == old(self).weights(),
            final(self)@ == vote_step(old(self)@, v@),
            out@ == vote_outcome(old(self)@, v@),
    {
        let game_id = v.game_id;
        let reply = v.self_id;
        let ghost vv = v@;
        match self.take(game_id) {
            Some(mut game) => {
                let actions = game.cast_death_vote(v);
                self.put(game_id, game);
                assert(self@ =~= vote_step(old(self)@, vv));
                Outcome { reply, actions }
            },
            None => {
                assert(self@ =~= old(self)@);
                Outcome { reply, actions: no_actions() }
            },
        }
    }

    /// A report of finished animations: dropped where the session is gone,
    /// else noted by the session.
    pub fn handle_animation(&mut self, a: AnimationMessage) -> (out: Outcome)
        requires
            old(self).wf(),
        ensures
            final(self).wf(),
            final(self).weights() == old(self).weights(),
            final(self)@ == animation_step(old(self)@, a@),
            out@ == animation_outcome(old(self)@, a@),
    {
        let game_id = a.game_id;
        let reply = a.player_id;
        let ghost av = a@;
        match self.take(game_id) {
            Some(mut game) => {
                let actions = game.note_animation(a);
                self.put(game_id, game);
                assert(self@ =~= animation_step(old(self)@, av));
                Outcome { reply, actions }
            },
            None => {
                assert(self@ =~= old(self)@);
                Outcome { reply, actions: no_actions() }
            },
        }
    }

    /// A tick: dropped where the session is gone, else taken by the
    /// session.
    pub fn handle_game_ticker(&mut self, t: GameTickerMessage) -> (out: Outcome)
        requires
            old(self).wf(),
        ensures
            final(self).wf(),
            final(self).weights() == old(self).weights(),
            final(self)@ == tick_step(old(self)@, t@),
            out@ == tick_outcome(old(self)@, t@),
    {
        let game_id = t.game_id;
        let ghost tv = t@;
        match self.take(game_id) {
            Some(mut game) => {
                let actions = game.tick(t);
                self.put(game_id, game);
                assert(self@ =~= tick_step(old(self)@, tv));
                Outcome { reply: game_id, actions }
            },
            None => {
                assert(self@ =~= old(self)@);
                Outcome { reply: game_id, actions: no_actions() }
            },
        }
    }

    /// Marks the countdown of a lobby as running and asks for its timer. A
    /// game that has started has no countdown.
    pub fn handle_countdown(&mut self, m: CountDownMessage) -> (out: Outcome)
        requires
            old(self).wf(),
        ensures
            final(self).wf(),
            final(self).weights() == old(self).weights(),
            final(self)@ == countdown_step(old(self)@, m),
            out@ == countdown_outcome(old(self)@, m),
    {
        let mut actions: Vec<Action> = Vec::new();
        match self.take(m.game_id) {
            Some(mut game) => {
                let ghost before = game@;
                if !game.game_started {
                    game.game_countdown_active = true;
                    actions.push(Action::StartCountdown { game_id: m.game_id });
                }
                proof {
                    assert(game@.players =~= before.players);
                    assert(game@ == after_countdown(before));
                    lemma_countdown_keeps_wf(before);
                }
                self.put(m.game_id, game);
                assert(self@ =~= countdown_step(old(self)@, m));
            },
            None => {
                assert(self@ =~= old(self)@);
            },
        }
        assert(action_views(actions@) =~= countdown_outcome(old(self)@, m).actions);
        Outcome { reply: m.game_id, actions }
    }

    /// Ends a session: it is removed and its timers are stopped.
    pub fn handle_delete_game(&mut self, m: DeleteGame) -> (out: Outcome)
        requires
            old(self).wf(),
        ensures
            final(self).wf(),
            final(self).weights() == old(self).weights(),
            final(self)@ == old(self)@.remove(m.game_id),
            out@ == delete_outcome(old(self)@, m),
    {
        match self.take(m.game_id) {
            Some(game) => Outcome { reply: m.game_id, actions: teardown_of(m.game_id, &game) },
            None => Outcome { reply: m.game_id, actions: no_actions() },
        }
    }

    /// A text for every connected participant of a session but one.
    pub fn handle_broadcast_str(&self, b: BroadcastStr) -> (out: Outcome)
        ensures
            out@ == broadcast_str_outcome(self@, b@),
    {
        let mut actions: Vec<Action> = Vec::new();
        match self.games.get(&b.game_id) {
            Some(game) => {
                let ids = game.get_cloned_players_id_addr();
                actions.push(
                    broadcast_to_game_str(b.json_string, b.ori_player_id, b.game_id, ids),
                );
            },
            None => {},
        }
        assert(action_views(actions@) =~= broadcast_str_outcome(self@, b@).actions);
        Outcome { reply: 0, actions }
    }

    /// A notice for the participants listed but one.
    pub fn handle_broadcast_obj(&self, b: BroadcastObj) -> (out: Outcome)
        ensures
            out@ == broadcast_obj_outcome(b@),
    {
        let mut actions: Vec<Action> = Vec::new();
        actions.push(broadcast_to_game(b.notice, b.ori_player_id, b.game_id, b.player_ids));
        assert(action_views(actions@) =~= broadcast_obj_outcome(b@).actions);
        Outcome { reply: 0, actions }
    }

    /// Draws a card by its weight.
    pub fn draw_card(&mut self) -> (card: u8)
        requires
            old(self).wf(),
        ensures
            card_ok(old(self).weights(), card),
            final(self)@ == old(self)@,
            final(self).weights() == old(self).weights(),
    {
        sample_index(&self.card_dist, &mut self.rng) as u8
    }

    /// Draws the random values for an advance of a session.
    fn draw_turn(&mut self, game: &Game) -> (draws: TurnDraws)
        requires
            old(self).wf(),
        ensures
            turn_draws_valid(old(self).weights(), game@, draws@),
            final(self)@ == old(self)@,
            final(self).weights() == old(self).weights(),
    {
        let mut characters: Vec<u8> = Vec::new();
        while characters.len() < MAX_PLAYERS
            invariant
                characters@.len() <= MAX_PLAYERS,
                forall|i: int| 0 <= i < characters@.len() ==> #[trigger] characters@[i] < 3,
                self@ == old(self)@,
                self.weights() == old(self).weights(),
            decreases MAX_PLAYERS - characters@.len(),
        {
            characters.push(draw_below(&mut self.rng, 0, 3) as u8);
        }
        let mut picks: Vec<usize> = Vec::new();
        let mut late_cards: Vec<u8> = Vec::new();
        let mut next_cards: Vec<u8> = Vec::new();
        let n = game.players.len();
        let mut i: usize = 0;
        while i < n
            invariant
                n == game.players.len(),
                i <= n,
                picks@.len() == i,
                late_cards@.len() == i,
                next_cards@.len() == i,
                self.wf(),
                self@ == old(self)@,
                self.weights() == old(self).weights(),
                forall|j: int|
                    0 <= j < i ==> card_ok(old(self).weights(), #[trigger] late_cards@[j]),
                forall|j: int|
                    0 <= j < i ==> card_ok(old(self).weights(), #[trigger] next_cards@[j]),
                forall|j: int|
                    0 <= j < i ==> match game@.players[j].card_options {
                        Some(options) => options.len() > 0 ==> #[trigger] picks@[j]
                            < options.len(),
                        None => true,
                    },
            decreases n - i,
        {
            let pick = match &game.players[i].card_options {
                Some(options) => {
                    if options.len() > 0 && options.len() <= u32::MAX as usize {
                        draw_below(&mut self.rng, 0, options.len() as u32) as usize
                    } else {
                        0
                    }
                },
                None => 0,
            };
            picks.push(pick);
            late_cards.push(self.draw_card());
            next_cards.push(self.draw_card());
            i += 1;
        }
        TurnDraws { characters, picks, late_cards, next_cards }
    }

    /// Draws three cards for every seat of a session.
    fn draw_offers(&mut self, game: &Game) -> (cards: Vec<(u8, u8, u8)>)
        requires
            old(self).wf(),
        ensures
            offers_valid(old(self).weights(), game@, cards@),
            final(self)@ == old(self)@,
            final(self).weights() == old(self).weights(),
    {
        let mut cards: Vec<(u8, u8, u8)> = Vec::new();
        let n = game.players.len();
        while cards.len() < n
            invariant
                n == game.players.len(),
                cards@.len() <= n,
                self.wf(),
                self@ == old(self)@,
                self.weights() == old(self).weights(),
                forall|i: int|
                    0 <= i < cards@.len() ==> {
                        &&& card_ok(old(self).weights(), (#[trigger] cards@[i]).0)
                        &&& card_ok(old(self).weights(), cards@[i].1)
                        &&& card_ok(old(self).weights(), cards@[i].2)
                    },
            decreases n - cards@.len(),
        {
            let a = self.draw_card();
            let b = self.draw_card();
            let c = self.draw_card();
            cards.push((a, b, c));
        }
        cards
    }

    /// A request to advance a session, with the random values to use. It is
    /// dropped where the session is gone.
    pub fn create_turn_with(&mut self, m: CreateTurnMessage, draws: &TurnDraws) -> (out: Outcome)
        requires
            old(self).wf(),
            old(self)@.contains_key(m.game_id) ==> draws@.fits(old(self)@[m.game_id]) && old(
                self,
            )@[m.game_id].turn_index < usize::MAX,
        ensures
            final(self).wf(),
            final(self).weights() == old(self).weights(),
            final(self)@ == create_turn_step(old(self)@, m),
            out@ == create_turn_outcome(old(self)@, m, draws@),
    {
        match self.take(m.game_id) {
            Some(mut game) => {
                let out = game.advance(m, draws);
                self.put(m.game_id, game);
                assert(self@ =~= create_turn_step(old(self)@, m));
                out
            },
            None => {
                assert(self@ =~= old(self)@);
                Outcome { reply: m.game_id, actions: no_actions() }
            },
        }
    }

    /// A request to advance a session: the random values are drawn, and the
    /// session advances with them. It is dropped where the session is gone.
    pub fn handle_create_turn(&mut self, m: CreateTurnMessage) -> (out: Outcome)
        requires
            old(self).wf(),
            old(self)@.contains_key(m.game_id) ==> old(self)@[m.game_id].turn_index < usize::MAX,
        ensures
            final(self).wf(),
            final(self).weights() == old(self).weights(),
            final(self)@ == create_turn_step(old(self)@, m),
            old(self)@.contains_key(m.game_id) ==> exists|draws: TurnDrawsView|
                turn_draws_valid(old(self).weights(), old(self)@[m.game_id], draws) && out@
                    == #[trigger] create_turn_outcome(old(self)@, m, draws),
            !old(self)@.contains_key(m.game_id) ==> out.reply == m.game_id && out@.actions
                == Seq::<ActionView>::empty(),
    {
        match self.take(m.game_id) {
            Some(mut game) => {
                assert(self@ =~= old(self)@.remove(m.game_id));
                let draws = self.draw_turn(&game);
                let out = game.advance(m, &draws);
                self.put(m.game_id, game);
                assert(self@ =~= create_turn_step(old(self)@, m));
                assert(out@ == create_turn_outcome(old(self)@, m, draws@));
                out
            },
            None => {
                assert(self@ =~= old(self)@);
                Outcome { reply: m.game_id, actions: no_actions() }
            },
        }
    }

    /// A request to deal, with the cards to offer: seat `i` is offered
    /// `cards[i]`. It is dropped where the session is gone.
    pub fn card_choice_with(&mut self, m: CardChoiceMessage, cards: &Vec<(u8, u8, u8)>) -> (out:
        Outcome)
        requires
            old(self).wf(),
            old(self)@.contains_key(m.game_id) ==> cards@.len() == old(
                self,
            )@[m.game_id].players.len(),
        ensures
            final(self).wf(),
            final(self).weights() == old(self).weights(),
            final(self)@ == card_choice_step(old(self)@, m, cards@),
            out@ == card_choice_outcome(old(self)@, m, cards@),
    {
        match self.take(m.game_id) {
            Some(mut game) => {
                let actions = game.deal(m, cards);
                self.put(m.game_id, game);
                assert(self@ =~= card_choice_step(old(self)@, m, cards@));
                Outcome { reply: m.turn_id, actions }
            },
            None => {
                assert(self@ =~= old(self)@);
                Outcome { reply: m.turn_id, actions: no_actions() }
            },
        }
    }

    /// A request to deal: three cards are drawn by weight for every seat,
    /// and everyone still in the game is offered those of its seat. It is
    /// dropped where the session is gone.
    pub fn handle_card_choice(&mut self, m: CardChoiceMessage) -> (out: Outcome)
        requires
            old(self).wf(),
        ensures
            final(self).wf(),
            final(self).weights() == old(self).weights(),
            old(self)@.contains_key(m.game_id) ==> exists|cards: Seq<(u8, u8, u8)>|
                offers_valid(old(self).weights(), old(self)@[m.game_id], cards) && final(self)@
                    == #[trigger] card_choice_step(old(self)@, m, cards) && out@
                    == card_choice_outcome(old(self)@, m, cards),
            !old(self)@.contains_key(m.game_id) ==> final(self)@ == old(self)@ && out.reply
                == m.turn_id && out@.actions == Seq::<ActionView>::empty(),
    {
        match self.take(m.game_id) {
            Some(mut game) => {
                assert(self@ =~= old(self)@.remove(m.game_id));
                let cards = self.draw_offers(&game);
                let actions = game.deal(m, &cards);
                self.put(m.game_id, game);
                assert(self@ =~= card_choice_step(old(self)@, m, cards@));
                let out = Outcome { reply: m.turn_id, actions };
                assert(out@ == card_choice_outcome(old(self)@, m, cards@));
                out
            },
            None => {
                assert(self@ =~= old(self)@);
                Outcome { reply: m.turn_id, actions: no_actions() }
            },
        }
    }

    /// The session that a newcomer is sent to, if any takes participants
    /// in.
    pub fn find_open(&self) -> (found: Option<usize>)
        ensures
            found == first_open(self@),
    {
        let ids = self.session_ids();
        let mut found: Option<usize> = None;
        let mut i: usize = 0;
        while i < ids.len()
            invariant
                i <= ids.len(),
                ids@.to_set() == self@.dom(),
                found matches Some(id) ==> is_open(self@, id),
                forall|j: int|
                    0 <= j < i && is_open(self@, #[trigger] ids@[j]) ==> match found {
                        Some(id) => id <= ids@[j],
                        None => false,
                    },
            decreases ids.len() - i,
        {
            let id = ids[i];
            assert(ids@.to_set().contains(id));
            let open = match self.session(id) {
                Some(game) => !game.game_started,
                None => false,
            };
            if open {
                found = match found {
                    Some(best) => if id < best {
                        Some(id)
                    } else {
                        Some(best)
                    },
                    None => Some(id),
                };
            }
            i += 1;
        }
        proof {
            assert forall|other: usize| is_open(self@, other) implies match found {
                Some(id) => id <= other,
                None => false,
            } by {
                assert(ids@.to_set().contains(other));
                let j = choose|j: int| 0 <= j < ids@.len() && ids@[j] == other;
                assert(is_open(self@, ids@[j]));
            }
            match found {
                Some(id) => {
                    assert(is_first_open(self@, id));
                    let chosen = choose|id: usize| is_first_open(self@, id);
                    assert(is_first_open(self@, chosen));
                    assert(is_open(self@, chosen) && is_open(self@, id));
                },
                None => {
                    assert forall|id: usize| !is_first_open(self@, id) by {}
                },
            }
        }
        found
    }

    /// An identifier of 32 bits that no session has: a random one, or the
    /// next free one after it.
    fn fresh_key(&mut self) -> (key: usize)
        requires
            old(self)@.dom().len() < u32::MAX,
        ensures
            !old(self)@.contains_key(key),
            key <= u32::MAX,
            final(self)@ == old(self)@,
            final(self).weights() == old(self).weights(),
    {
        let seed = draw_u32(&mut self.rng) as usize;
        let top = u32::MAX as usize;
        let mut key = seed;
        while key < top && self.games.contains_key(&key)
            invariant
                seed <= key <= top,
                top == u32::MAX,
                self@ == old(self)@,
                self.weights() == old(self).weights(),
                forall|k: usize| seed <= k < key ==> self.games@.contains_key(k),
            decreases top - key,
        {
            key += 1;
        }
        if !self.games.contains_key(&key) {
            return key;
        }
        let mut low: usize = 0;
        while low < seed && self.games.contains_key(&low)
            invariant
                low <= seed,
                self@ == old(self)@,
                self.weights() == old(self).weights(),
                forall|k: usize| k < low ==> self.games@.contains_key(k),
            decreases seed - low,
        {
            low += 1;
        }
        proof {
            if low == seed {
                assert forall|k: usize| k <= u32::MAX implies self.games@.dom().contains(k) by {
                    if k < seed {
                    } else if k < key {
                    } else {
                        assert(k == key);
                    }
                }
                lemma_every_key_used(self.games@.dom());
                assert(self@.dom() =~= self.games@.dom());
            }
        }
        low
    }

    /// Ten distinct squares of the board, drawn without replacement.
    fn draw_positions(&mut self) -> (positions: Vec<(u16, u16)>)
        ensures
            squares_distinct(positions@),
            forall|k: int| 0 <= k < positions@.len() ==> on_board(#[trigger] positions@[k]),
            final(self)@ == old(self)@,
            final(self).weights() == old(self).weights(),
    {
        let mut cells = board_cells();
        proof {
            assert forall|p: int, q: int| 0 <= p < q < BOARD_CELLS implies cells@[p]
                != cells@[q] by {
                assert(cells@[p] == cell_at(p) && cells@[q] == cell_at(q));
            }
            assert forall|k: int| 0 <= k < BOARD_CELLS implies on_board(
                #[trigger] cells@[k],
            ) by {
                assert(cells@[k] == cell_at(k));
            }
        }
        let mut positions: Vec<(u16, u16)> = Vec::new();
        let mut i: usize = 0;
        while i < MAX_PLAYERS
            invariant
                i <= MAX_PLAYERS,
                cells@.len() == BOARD_CELLS,
                positions@.len() == i,
                self@ == old(self)@,
                self.weights() == old(self).weights(),
                forall|p: int, q: int| 0 <= p < q < BOARD_CELLS ==> cells@[p] != cells@[q],
                forall|k: int| 0 <= k < BOARD_CELLS ==> on_board(#[trigger] cells@[k]),
                forall|k: int| 0 <= k < i ==> positions@[k] == cells@[k],
            decreases MAX_PLAYERS - i,
        {
            let j = draw_below(&mut self.rng, i as u32, BOARD_CELLS as u32) as usize;
            let here = cells[i];
            let there = cells[j];
            cells[i] = there;
            cells[j] = here;
            positions.push(there);
            i += 1;
        }
        positions
    }

    /// Opens a session with the given identifier and squares.
    fn open_session(&mut self, key: usize, positions: Vec<(u16, u16)>)
        requires
            old(self).wf(),
            squares_distinct(positions@),
        ensures
            final(self).wf(),
            final(self).weights() == old(self).weights(),
            final(self)@ == old(self)@.insert(key, lobby(positions@)),
    {
        proof {
            lemma_lobby_wf(positions@);
        }
        let game = Game {
            board_size: BOARD_SIZE,
            game_started: false,
            players: Vec::new(),
            turn_index: 0,
            available_pos: positions,
            game_countdown_active: false,
            has_loop_countdown: false,
        };
        assert(game@.players =~= lobby(positions@).players);
        self.put(key, game);
    }

    /// A request for a seat, with the random values to use. A request that
    /// names a session is dropped where that session is gone. One that
    /// names none goes to the first session that takes participants in, or
    /// opens one. Then the session seats the newcomer or refuses.
    pub fn connect_with(&mut self, c: Connect, draws: SeatDraws) -> (out: Outcome)
        requires
            old(self).wf(),
            seat_draws_usable(old(self)@, c@, draws@),
        ensures
            final(self).wf(),
            final(self).weights() == old(self).weights(),
            final(self)@ == connect_step(old(self)@, c@, draws@),
            out@ == connect_outcome(old(self)@, c@, draws@),
    {
        let mut actions: Vec<Action> = Vec::new();
        let ghost dv = draws@;
        let target = match c.game_id {
            Some(id) => {
                if !self.has_session(id) {
                    return Outcome { reply: 0, actions: no_actions() };
                }
                id
            },
            None => match self.find_open() {
                Some(id) => id,
                None => {
                    let key = draws.session_key;
                    self.open_session(key, draws.positions);
                    actions.push(Action::StartTicker { game_id: key });
                    actions.push(
                        Action::Enqueue(Command::CountDown(CountDownMessage { game_id: key })),
                    );
                    key
                },
            },
        };
        let ghost opened = with_lobby(old(self)@, c@, dv);
        let ghost opening = actions@;
        assert(self@ == opened);
        assert(connect_target(old(self)@, c@, dv) == Some(target));
        assert(action_views(opening) =~= if opens_session(old(self)@, c@) {
            lobby_actions(target)
        } else {
            Seq::empty()
        });
        let ghost cv = c@;
        match self.take(target) {
            Some(mut game) => {
                let seated = game.seat(c, target, draws.private_key, draws.facing, draws.card);
                self.put(target, game);
                let reply = seated.reply;
                let mut rest = seated.actions;
                let ghost rest_before = rest@;
                actions.append(&mut rest);
                proof {
                    lemma_action_views_add(opening, rest_before);
                    assert(self@ =~= connect_step(old(self)@, cv, dv));
                }
                Outcome { reply, actions }
            },
            None => Outcome { reply: 0, actions },
        }
    }

    /// A request for a seat: the random values are drawn, and the newcomer
    /// is seated with them.
    pub fn handle_connect(&mut self, c: Connect) -> (out: Outcome)
        requires
            old(self).wf(),
            old(self)@.dom().len() < u32::MAX,
        ensures
            final(self).wf(),
            final(self).weights() == old(self).weights(),
            exists|draws: SeatDrawsView|
                seat_draws_valid(old(self).weights(), old(self)@, c@, draws) && final(self)@
                    == #[trigger] connect_step(old(self)@, c@, draws) && out@ == connect_outcome(
                    old(self)@,
                    c@,
                    draws,
                ),
    {
        let opens = match c.game_id {
            Some(_) => false,
            None => self.find_open().is_none(),
        };
        let session_key = if opens {
            self.fresh_key()
        } else {
            0
        };
        let positions = if opens {
            self.draw_positions()
        } else {
            Vec::new()
        };
        let private_key = draw_key(&mut self.rng);
        let facing = draw_below(&mut self.rng, 0, 4) as u8;
        let card = self.draw_card();
        let draws = SeatDraws { session_key, positions, private_key, facing, card };
        let ghost dv = draws@;
        assert(seat_draws_valid(old(self).weights(), old(self)@, c@, dv));
        let out = self.connect_with(c, draws);
        assert(self@ == connect_step(old(self)@, c@, dv));
        out
    }

    /// Removes the sessions listed and says which timers to stop.
    fn remove_all(&mut self, ids: &Vec<usize>) -> (actions: Vec<Action>)
        requires
            old(self).wf(),
            ids@.no_duplicates(),
            forall|i: int| 0 <= i < ids@.len() ==> old(self)@.contains_key(#[trigger] ids@[i]),
        ensures
            final(self).wf(),
            final(self).weights() == old(self).weights(),
            final(self)@ == old(self)@.remove_keys(ids@.to_set()),
            action_views(actions@) == teardowns(old(self)@, ids@),
    {
        let mut actions: Vec<Action> = Vec::new();
        let mut i: usize = 0;
        while i < ids.len()
            invariant
                i <= ids.len(),
                ids@.no_duplicates(),
                self.wf(),
                self.weights() == old(self).weights(),
                forall|j: int| 0 <= j < ids@.len() ==> old(self)@.contains_key(#[trigger] ids@[j]),
                self@ == old(self)@.remove_keys(ids@.take(i as int).to_set()),
                action_views(actions@) == teardowns(old(self)@, ids@.take(i as int)),
            decreases ids.len() - i,
        {
            let id = ids[i];
            let ghost before = self@;
            let ghost done = actions@;
            let ghost upto = ids@.take(i as int);
            let ghost next = ids@.take(i + 1);
            proof {
                assert(next.drop_last() =~= upto);
                assert(next.last() == id);
                assert(!upto.to_set().contains(id)) by {
                    if upto.to_set().contains(id) {
                        let j = choose|j: int| 0 <= j < upto.len() && #[trigger] upto[j] == id;
                        assert(ids@[j] == ids@[i as int]);
                    }
                }
                assert(next.to_set() =~= upto.to_set().insert(id)) by {
                    assert forall|k: usize|
                        next.to_set().contains(k) <==> upto.to_set().insert(id).contains(k) by {
                        if next.to_set().contains(k) {
                            let j = choose|j: int| 0 <= j < next.len() && #[trigger] next[j] == k;
                            if j < i {
                                assert(upto[j] == k);
                            }
                        }
                        if upto.to_set().contains(k) {
                            let j = choose|j: int| 0 <= j < upto.len() && #[trigger] upto[j] == k;
                            assert(next[j] == k);
                        }
                        if k == id {
                            assert(next[i as int] == k);
                        }
                    }
                }
            }
            match self.take(id) {
                Some(game) => {
                    let mut stop = teardown_of(id, &game);
                    let ghost stop_before = stop@;
                    actions.append(&mut stop);
                    proof {
                        lemma_action_views_add(done, stop_before);
                    }
                },
                None => {},
            }
            assert(self@ =~= old(self)@.remove_keys(next.to_set()));
            i += 1;
        }
        assert(ids@.take(ids@.len() as int) =~= ids@);
        actions
    }

    /// The sessions in which no person is left in the game.
    pub fn deserted_ids(&self) -> (ids: Vec<usize>)
        ensures
            lists(ids@, deserted(self@)),
    {
        let all = self.session_ids();
        let mut ids: Vec<usize> = Vec::new();
        let ghost mut from: Seq<int> = Seq::empty();
        let mut i: usize = 0;
        while i < all.len()
            invariant
                i <= all.len(),
                all@.no_duplicates(),
                all@.to_set() == self@.dom(),
                from.len() == ids@.len(),
                forall|a: int| 0 <= a < from.len() ==> 0 <= #[trigger] from[a] < i,
                forall|a: int, b: int| 0 <= a < b < from.len() ==> from[a] < from[b],
                forall|a: int|
                    0 <= a < ids@.len() ==> #[trigger] ids@[a] == all@[from[a]] && deserted(
                        self@,
                    ).contains(ids@[a]),
                forall|j: int|
                    0 <= j < i && deserted(self@).contains(#[trigger] all@[j])
                        ==> ids@.contains(all@[j]),
            decreases all.len() - i,
        {
            let id = all[i];
            assert(all@.to_set().contains(id));
            let empty = match self.session(id) {
                Some(game) => game.get_real_active_players() < 1,
                None => false,
            };
            if empty {
                let ghost prior = ids@;
                ids.push(id);
                proof {
                    from = from.push(i as int);
                    assert forall|j: int|
                        0 <= j < i + 1 && deserted(self@).contains(
                            #[trigger] all@[j],
                        ) implies ids@.contains(all@[j]) by {
                        if j < i {
                            assert(prior.contains(all@[j]));
                            let a = choose|a: int| 0 <= a < prior.len() && prior[a] == all@[j];
                            assert(ids@[a] == all@[j]);
                        } else {
                            assert(ids@[ids@.len() - 1] == all@[j]);
                        }
                    }
                }
            }
            i += 1;
        }
        proof {
            assert(ids@.no_duplicates()) by {
                assert forall|a: int, b: int|
                    0 <= a < ids@.len() && 0 <= b < ids@.len() && a != b implies ids@[a]
                    != ids@[b] by {
                    assert(ids@[a] == all@[from[a]] && ids@[b] == all@[from[b]]);
                    if a < b {
                        assert(from[a] < from[b]);
                    } else {
                        assert(from[b] < from[a]);
                    }
                }
            }
            assert(ids@.to_set() =~= deserted(self@)) by {
                assert forall|k: usize| ids@.to_set().contains(k) <==> deserted(
                    self@,
                ).contains(k) by {
                    if ids@.to_set().contains(k) {
                        let a = choose|a: int| 0 <= a < ids@.len() && ids@[a] == k;
                        assert(deserted(self@).contains(ids@[a]));
                    }
                    if deserted(self@).contains(k) {
                        assert(all@.to_set().contains(k));
                        let j = choose|j: int| 0 <= j < all@.len() && all@[j] == k;
                        assert(ids@.contains(all@[j]));
                    }
                }
            }
        }
        ids
    }

    /// Removes every session in which no person is left in the game, and
    /// tells whoever asked how many went.
    pub fn handle_prune(&mut self, msg: MessagePrune) -> (out: Outcome)
        requires
            old(self).wf(),
        ensures
            final(self).wf(),
            final(self).weights() == old(self).weights(),
            final(self)@ == pruned(old(self)@),
            exists|ids: Seq<usize>|
                lists(ids, deserted(old(self)@)) && out@ == #[trigger] removal_outcome(
                    old(self)@,
                    ids,
                ),
    {
        let ids = self.deserted_ids();
        proof {
            assert forall|i: int| 0 <= i < ids@.len() implies old(self)@.contains_key(
                #[trigger] ids@[i],
            ) by {
                assert(ids@.to_set().contains(ids@[i]));
            }
        }
        let mut actions = self.remove_all(&ids);
        let ghost stops = actions@;
        actions.push(Action::Reply(Notice::Text(removed(ids.len()))));
        proof {
            lemma_action_views_push(stops, actions@.last());
        }
        let out = Outcome { reply: ids.len(), actions };
        assert(out@ == removal_outcome(old(self)@, ids@));
        out
    }

    /// Removes every session, and tells whoever asked how many went.
    pub fn handle_full_clean(&mut self, msg: MessageFullClean) -> (out: Outcome)
        requires
            old(self).wf(),
        ensures
            final(self).wf(),
            final(self).weights() == old(self).weights(),
            final(self)@ == Map::<usize, GameView>::empty(),
            out.reply == old(self)@.dom().len(),
            exists|ids: Seq<usize>|
                lists(ids, old(self)@.dom()) && out@ == #[trigger] removal_outcome(
                    old(self)@,
                    ids,
                ),
    {
        let ids = self.session_ids();
        proof {
            assert forall|i: int| 0 <= i < ids@.len() implies old(self)@.contains_key(
                #[trigger] ids@[i],
            ) by {
                assert(ids@.to_set().contains(ids@[i]));
            }
            ids@.unique_seq_to_set();
        }
        let mut actions = self.remove_all(&ids);
        let ghost stops = actions@;
        actions.push(Action::Reply(Notice::Text(removed(ids.len()))));
        proof {
            lemma_action_views_push(stops, actions@.last());
            assert(self@ =~= Map::<usize, GameView>::empty());
        }
        let out = Outcome { reply: ids.len(), actions };
        assert(out@ == removal_outcome(old(self)@, ids@));
        out
    }

    /// A connection went away: nothing happens until the next tick.
    pub fn handle_disconnect(&self, msg: Disconnect) -> (out: Outcome)
        ensures
            out@ == (OutcomeView { reply: 0, actions: Seq::empty() }),
    {
        Outcome { reply: 0, actions: no_actions() }
    }

    /// Handles a command, whichever it is.
    pub fn handle(&mut self, cmd: Command) -> (out: Outcome)
        requires
            old(self).wf(),
            ready_for(old(self)@, cmd@),
        ensures
            final(self).wf(),
            final(self).weights() == old(self).weights(),
            handled(old(self).weights(), old(self)@, cmd@, final(self)@, out@),
    {
        match cmd {
            Command::Connect(c) => self.handle_connect(c),
            Command::Mutation(m) => self.handle_mutation(m),
            Command::CountDown(m) => self.handle_countdown(m),
            Command::CreateTurn(m) => self.handle_create_turn(m),
            Command::CardChoice(m) => self.handle_card_choice(m),
            Command::Animation(a) => self.handle_animation(a),
            Command::PollPlayerDeath(v) => self.handle_poll_player_death(v),
            Command::GameTicker(t) => self.handle_game_ticker(t),
            Command::DeleteGame(m) => self.handle_delete_game(m),
            Command::BroadcastObj(b) => self.handle_broadcast_obj(b),
            Command::BroadcastStr(b) => self.handle_broadcast_str(b),
            Command::Prune(m) => self.handle_prune(m),
            Command::FullClean(m) => self.handle_full_clean(m),
            Command::Disconnect(m) => self.handle_disconnect(m),
        }
    }
}

/// Starting the countdown leaves a well-formed session well-formed.
pub proof fn lemma_countdown_keeps_wf(g: GameView)
    requires
        g.wf(),
    ensures
        after_countdown(g).wf(),
{
    let h = after_countdown(g);
    if !g.game_started {
        assert(h.players == g.players);
        assert forall|i: int| 0 <= i < h.players.len() implies h.seat(i) == g.seat(i) by {}
        assert(h.seats_distinct());
    }
}

/// A finite set that holds every identifier of 32 bits has at least as
/// many members as there are such identifiers.
pub proof fn lemma_every_key_used(used: Set<usize>)
    requires
        used.finite(),
        forall|k: usize| k <= u32::MAX ==> used.contains(k),
    ensures
        used.len() > u32::MAX,
{
    let all = vstd::set_lib::set_int_range(0, u32::MAX + 1);
    let f = |j: int| j as usize;
    let keys = all.map(f);
    vstd::set_lib::lemma_int_range(0, u32::MAX + 1);
    assert(vstd::relations::injective_on(f, all)) by {
        assert forall|a: int, b: int| all.contains(a) && all.contains(b) && #[trigger] f(a)
            == #[trigger] f(b) implies a == b by {}
    }
    vstd::set_lib::lemma_map_size(all, keys, f);
    assert(keys.subset_of(used)) by {
        assert forall|k: usize| keys.contains(k) implies used.contains(k) by {
            let j = choose|j: int| all.contains(j) && f(j) == k;
            assert(k <= u32::MAX);
        }
    }
    vstd::set_lib::lemma_len_subset(keys, used);
}

} // verus!
