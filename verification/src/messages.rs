//! Commands that reach the coordinator, notices that leave it, and the
//! actions a handler asks its caller to perform.

use vstd::prelude::*;
use crate::models::{Mutation, Player, PlayerView};

verus! {

/// A participant asks for a seat. `game_id` is set only for a computer
/// player that backfills a given session.
#[derive(Debug, PartialEq, Eq)]
pub struct Connect {
    pub username: String,
    pub character_type: u8,
    /// Whether the participant has a connection of its own.
    pub has_addr: bool,
    pub game_id: Option<usize>,
}

pub struct ConnectView {
    pub username: Seq<char>,
    pub character_type: u8,
    pub has_addr: bool,
    pub game_id: Option<usize>,
}

impl View for Connect {
    type V = ConnectView;

    open spec fn view(&self) -> ConnectView {
        ConnectView {
            username: self.username@,
            character_type: self.character_type,
            has_addr: self.has_addr,
            game_id: self.game_id,
        }
    }
}

/// A participant submits a move.
#[derive(Debug, PartialEq, Eq)]
pub struct MutationMessage {
    pub mutation: Mutation,
    pub player_id: usize,
    pub pk: String,
    pub turn_id: usize,
    pub game_id: usize,
}

pub struct MutationMessageView {
    pub mutation: Mutation,
    pub player_id: usize,
    pub pk: Seq<char>,
    pub turn_id: usize,
    pub game_id: usize,
}

impl View for MutationMessage {
    type V = MutationMessageView;

    open spec fn view(&self) -> MutationMessageView {
        MutationMessageView {
            mutation: self.mutation,
            player_id: self.player_id,
            pk: self.pk@,
            turn_id: self.turn_id,
            game_id: self.game_id,
        }
    }
}

/// Starts the countdown of a lobby.
#[derive(Clone, Copy, Debug, PartialEq, Eq, Structural)]
pub struct CountDownMessage {
    pub game_id: usize,
}

/// Advances a session by one turn. With `check_turn_id` the advance is
/// dropped unless the session is still at that turn.
#[derive(Clone, Copy, Debug, PartialEq, Eq, Structural)]
pub struct CreateTurnMessage {
    pub game_id: usize,
    pub check_turn_id: Option<usize>,
}

/// Deals a fresh offer to every active participant.
#[derive(Clone, Copy, Debug, PartialEq, Eq, Structural)]
pub struct CardChoiceMessage {
    pub game_id: usize,
    pub turn_id: usize,
}

/// Removes every session without an active human participant.
#[derive(Clone, Copy, Debug, PartialEq, Eq, Structural)]
pub struct MessagePrune {}

/// Removes every session.
#[derive(Clone, Copy, Debug, PartialEq, Eq, Structural)]
pub struct MessageFullClean {}

/// A connection went away.
#[derive(Clone, Copy, Debug, PartialEq, Eq, Structural)]
pub struct Disconnect {
    pub id: usize,
}

/// A participant reports that it has played the turn's animations.
#[derive(Debug, PartialEq, Eq)]
pub struct AnimationMessage {
    pub player_id: usize,
    pub pk: String,
    pub game_id: usize,
    pub turn_id: usize,
}

pub struct AnimationMessageView {
    pub player_id: usize,
    pub pk: Seq<char>,
    pub game_id: usize,
    pub turn_id: usize,
}

impl View for AnimationMessage {
    type V = AnimationMessageView;

    open spec fn view(&self) -> AnimationMessageView {
        AnimationMessageView {
            player_id: self.player_id,
            pk: self.pk@,
            game_id: self.game_id,
            turn_id: self.turn_id,
        }
    }
}

/// The periodic tick of a session. `live[i]` says whether the connection
/// of participant `i` is still up; a participant beyond the list counts as
/// gone.
#[derive(Debug, PartialEq, Eq)]
pub struct GameTickerMessage {
    pub game_id: usize,
    pub live: Vec<bool>,
}

pub struct GameTickerMessageView {
    pub game_id: usize,
    pub live: Seq<bool>,
}

impl View for GameTickerMessage {
    type V = GameTickerMessageView;

    open spec fn view(&self) -> GameTickerMessageView {
        GameTickerMessageView { game_id: self.game_id, live: self.live@ }
    }
}

/// A participant votes that another one has died.
#[derive(Debug, PartialEq, Eq)]
pub struct PollPlayerDeathMessage {
    pub other_id: usize,
    pub self_id: usize,
    pub pk: String,
    pub game_id: usize,
    pub turn_id: usize,
}

pub struct PollPlayerDeathMessageView {
    pub other_id: usize,
    pub self_id: usize,
    pub pk: Seq<char>,
    pub game_id: usize,
    pub turn_id: usize,
}

impl View for PollPlayerDeathMessage {
    type V = PollPlayerDeathMessageView;

    open spec fn view(&self) -> PollPlayerDeathMessageView {
        PollPlayerDeathMessageView {
            other_id: self.other_id,
            self_id: self.self_id,
            pk: self.pk@,
            game_id: self.game_id,
            turn_id: self.turn_id,
        }
    }
}

/// Ends a session.
#[derive(Clone, Copy, Debug, PartialEq, Eq, Structural)]
pub struct DeleteGame {
    pub game_id: usize,
}

/// What the others learn of a participant.
#[derive(Debug, PartialEq, Eq)]
pub struct PlayerJoin {
    pub user_id: usize,
    pub username: String,
    pub x: u16,
    pub y: u16,
    pub char_type: u8,
    pub start_orientation: u8,
}

pub struct PlayerJoinView {
    pub user_id: usize,
    pub username: Seq<char>,
    pub x: u16,
    pub y: u16,
    pub char_type: u8,
    pub start_orientation: u8,
}

impl View for PlayerJoin {
    type V = PlayerJoinView;

    open spec fn view(&self) -> PlayerJoinView {
        PlayerJoinView {
            user_id: self.user_id,
            username: self.username@,
            x: self.x,
            y: self.y,
            char_type: self.char_type,
            start_orientation: self.start_orientation,
        }
    }
}

impl PlayerJoinView {
    /// The public part of a participant's record.
    pub open spec fn of(player: PlayerView) -> PlayerJoinView {
        PlayerJoinView {
            user_id: player.id,
            username: player.username,
            x: player.pos.0,
            y: player.pos.1,
            char_type: player.character_type,
            start_orientation: player.pos.2,
        }
    }
}

impl PlayerJoin {
    /// The public part of a participant's record.
    pub fn from(player: &Player) -> (join: PlayerJoin)
        ensures
            join@ == PlayerJoinView::of(player@),
    {
        PlayerJoin {
            user_id: player.id,
            username: player.username.clone(),
            x: player.pos.0,
            y: player.pos.1,
            char_type: player.character_type,
            start_orientation: player.pos.2,
        }
    }
}

/// A participant has been eliminated.
#[derive(Clone, Copy, Debug, PartialEq, Eq, Structural)]
pub struct PlayerDied {
    pub user_id: usize,
}

/// The number of the current turn.
#[derive(Clone, Copy, Debug, PartialEq, Eq, Structural)]
pub struct Turn {
    pub id: i32,
}

/// The cards offered to one participant for one turn.
#[derive(Debug, PartialEq, Eq)]
pub struct CardOptions {
    pub card_options: Vec<u8>,
    pub player_id: usize,
    pub turn_id: usize,
}

pub struct CardOptionsView {
    pub card_options: Seq<u8>,
    pub player_id: usize,
    pub turn_id: usize,
}

impl View for CardOptions {
    type V = CardOptionsView;

    open spec fn view(&self) -> CardOptionsView {
        CardOptionsView {
            card_options: self.card_options@,
            player_id: self.player_id,
            turn_id: self.turn_id,
        }
    }
}

/// What a person sends to ask for a seat.
#[derive(Debug, PartialEq, Eq)]
pub struct NewPlayer {
    pub username: String,
    pub character_type: i32,
}

} // verus!
