//! Participants and sessions, with the mathematical values that the
//! contracts of the coordinator speak of.

use vstd::prelude::*;
use rand::rngs::ThreadRng;
use crate::random::{draw_below, draw_key, is_key};

verus! {

/// Seats of one session.
pub const MAX_PLAYERS: usize = 10;

/// Width and height of the board.
pub const BOARD_SIZE: (u16, u16) = (16, 9);

/// A submitted move: the card played and where.
#[derive(Clone, Copy, Debug, PartialEq, Eq, Structural)]
pub struct Mutation {
    pub user_id: usize,
    pub card_type: u8,
    pub card_location: u8,
}

/// One seat of a session, held by a person or by the computer.
#[derive(Debug, PartialEq, Eq)]
pub struct Player {
    pub id: usize,
    pub username: String,
    pub private_key: String,
    pub character_type: u8,
    pub pos: (u16, u16, u8),
    pub is_ai: bool,
    pub active: bool,
    pub previous_choices: Vec<Mutation>,
    pub card_options: Option<Vec<u8>>,
    pub animation_done: bool,
    /// Whether a connection is registered for this seat.
    pub has_addr: bool,
    pub game_id: usize,
    pub has_death_voted: bool,
    pub been_death_voted_for: usize,
}

/// What a `Player` is, as a mathematical value.
pub struct PlayerView {
    pub id: usize,
    pub username: Seq<char>,
    pub private_key: Seq<char>,
    pub character_type: u8,
    pub pos: (u16, u16, u8),
    pub is_ai: bool,
    pub active: bool,
    pub previous_choices: Seq<Mutation>,
    pub card_options: Option<Seq<u8>>,
    pub animation_done: bool,
    pub has_addr: bool,
    pub game_id: usize,
    pub has_death_voted: bool,
    pub been_death_voted_for: usize,
}

impl View for Player {
    type V = PlayerView;

    open spec fn view(&self) -> PlayerView {
        PlayerView {
            id: self.id,
            username: self.username@,
            private_key: self.private_key@,
            character_type: self.character_type,
            pos: self.pos,
            is_ai: self.is_ai,
            active: self.active,
            previous_choices: self.previous_choices@,
            card_options: match self.card_options {
                Some(options) => Some(options@),
                None => None,
            },
            animation_done: self.animation_done,
            has_addr: self.has_addr,
            game_id: self.game_id,
            has_death_voted: self.has_death_voted,
            been_death_voted_for: self.been_death_voted_for,
        }
    }
}

impl PlayerView {
    /// The record of a participant who has just been seated.
    pub open spec fn seated(
        id: usize,
        game_id: usize,
        username: Seq<char>,
        character_type: u8,
        pos: (u16, u16),
        is_ai: bool,
        has_addr: bool,
        private_key: Seq<char>,
        facing: u8,
    ) -> PlayerView {
        PlayerView {
            id,
            username,
            private_key,
            character_type,
            pos: (pos.0, pos.1, facing),
            is_ai,
            active: true,
            previous_choices: Seq::empty(),
            card_options: None,
            animation_done: false,
            has_addr,
            game_id,
            has_death_voted: false,
            been_death_voted_for: 0,
        }
    }
}

impl Player {
    /// Seats a participant with the given secret and facing.
    pub fn with_draws(
        id: usize,
        game_id: usize,
        username: String,
        character_type: u8,
        pos: (u16, u16),
        is_ai: bool,
        has_addr: bool,
        private_key: String,
        facing: u8,
    ) -> (player: Player)
        ensures
            player@ == PlayerView::seated(
                id,
                game_id,
                username@,
                character_type,
                pos,
                is_ai,
                has_addr,
                private_key@,
                facing,
            ),
    {
        Player {
            id,
            username,
            private_key,
            character_type,
            pos: (pos.0, pos.1, facing),
            is_ai,
            active: true,
            previous_choices: Vec::new(),
            card_options: None,
            animation_done: false,
            has_addr,
            game_id,
            has_death_voted: false,
            been_death_voted_for: 0,
        }
    }

    /// Seats a participant, drawing a fresh ten-character secret and one of
    /// the four facings.
    pub fn new(
        id: usize,
        game_id: usize,
        username: String,
        character_type: u8,
        pos: (u16, u16),
        is_ai: bool,
        has_addr: bool,
        rng: &mut ThreadRng,
    ) -> (player: Player)
        ensures
            is_key(player@.private_key),
            player@.pos.2 < 4,
            player@ == PlayerView::seated(
                id,
                game_id,
                username@,
                character_type,
                pos,
                is_ai,
                has_addr,
                player@.private_key,
                player@.pos.2,
            ),
    {
        let private_key = draw_key(rng);
        let facing = draw_below(rng, 0, 4) as u8;
        Player::with_draws(
            id,
            game_id,
            username,
            character_type,
            pos,
            is_ai,
            has_addr,
            private_key,
            facing,
        )
    }
}

} // verus!

verus! {

/// One game instance.
#[derive(Debug, PartialEq, Eq)]
pub struct Game {
    pub board_size: (u16, u16),
    pub game_started: bool,
    pub players: Vec<Player>,
    pub turn_index: usize,
    pub available_pos: Vec<(u16, u16)>,
    /// Whether the countdown of the lobby is running.
    pub game_countdown_active: bool,
    pub has_loop_countdown: bool,
}

/// What a `Game` is, as a mathematical value.
pub struct GameView {
    pub board_size: (u16, u16),
    pub game_started: bool,
    pub players: Seq<PlayerView>,
    pub turn_index: usize,
    pub available_pos: Seq<(u16, u16)>,
    pub game_countdown_active: bool,
    pub has_loop_countdown: bool,
}

/// The values of a list of participants.
pub open spec fn player_views(players: Seq<Player>) -> Seq<PlayerView> {
    Seq::new(players.len(), |i: int| players[i]@)
}

impl View for Game {
    type V = GameView;

    open spec fn view(&self) -> GameView {
        GameView {
            board_size: self.board_size,
            game_started: self.game_started,
            players: player_views(self.players@),
            turn_index: self.turn_index,
            available_pos: self.available_pos@,
            game_countdown_active: self.game_countdown_active,
            has_loop_countdown: self.has_loop_countdown,
        }
    }
}

} // verus!
