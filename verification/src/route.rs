//! From what a connection or a timer brings to the command it stands for.

use vstd::prelude::*;
use vstd::string::StringExecFns;
use crate::actions::{BroadcastStr, BroadcastStrView, Command, CommandView, Notice, NoticeView};
use crate::config::COUNTDOWN_SECS;
use crate::messages::{
    AnimationMessage, AnimationMessageView, Connect, ConnectView, CreateTurnMessage,
    MessageFullClean, MessagePrune, MutationMessage, MutationMessageView,
    PollPlayerDeathMessage, PollPlayerDeathMessageView,
};
use crate::models::Mutation;
use crate::text::{till_start, till_start_text};

verus! {

/// What a participant can send.
#[derive(Debug, PartialEq, Eq)]
pub enum MessageType {
    InitiateGame { username: String, character_type: u8, color: Option<u8> },
    ChooseCard {
        card_number: u8,
        location: u8,
        player_id: usize,
        pk: String,
        turn_id: usize,
        game_id: usize,
    },
    AnimationsDone { player_id: usize, pk: String, turn_id: usize, game_id: usize },
    PollPlayerDied { other_id: usize, self_id: usize, pk: String, turn_id: usize, game_id: usize },
    Prune { password: String },
    FullClean { password: String },
}

pub enum MessageTypeView {
    InitiateGame { username: Seq<char>, character_type: u8, color: Option<u8> },
    ChooseCard {
        card_number: u8,
        location: u8,
        player_id: usize,
        pk: Seq<char>,
        turn_id: usize,
        game_id: usize,
    },
    AnimationsDone { player_id: usize, pk: Seq<char>, turn_id: usize, game_id: usize },
    PollPlayerDied {
        other_id: usize,
        self_id: usize,
        pk: Seq<char>,
        turn_id: usize,
        game_id: usize,
    },
    Prune { password: Seq<char> },
    FullClean { password: Seq<char> },
}

impl View for MessageType {
    type V = MessageTypeView;

    open spec fn view(&self) -> MessageTypeView {
        match self {
            MessageType::InitiateGame { username, character_type, color } => {
                MessageTypeView::InitiateGame {
                    username: username@,
                    character_type: *character_type,
                    color: *color,
                }
            },
            MessageType::ChooseCard { card_number, location, player_id, pk, turn_id, game_id } => {
                MessageTypeView::ChooseCard {
                    card_number: *card_number,
                    location: *location,
                    player_id: *player_id,
                    pk: pk@,
                    turn_id: *turn_id,
                    game_id: *game_id,
                }
            },
            MessageType::AnimationsDone { player_id, pk, turn_id, game_id } => {
                MessageTypeView::AnimationsDone {
                    player_id: *player_id,
                    pk: pk@,
                    turn_id: *turn_id,
                    game_id: *game_id,
                }
            },
            MessageType::PollPlayerDied { other_id, self_id, pk, turn_id, game_id } => {
                MessageTypeView::PollPlayerDied {
                    other_id: *other_id,
                    self_id: *self_id,
                    pk: pk@,
                    turn_id: *turn_id,
                    game_id: *game_id,
                }
            },
            MessageType::Prune { password } => MessageTypeView::Prune { password: password@ },
            MessageType::FullClean { password } => MessageTypeView::FullClean {
                password: password@,
            },
        }
    }
}

/// Where a message goes: on to the coordinator as a command, or back to its
/// sender with a refusal.
#[derive(Debug, PartialEq, Eq)]
pub enum Routed {
    Forward(Command),
    Reject(Notice),
}

pub enum RoutedView {
    Forward(CommandView),
    Reject(NoticeView),
}

impl View for Routed {
    type V = RoutedView;

    open spec fn view(&self) -> RoutedView {
        match self {
            Routed::Forward(c) => RoutedView::Forward(c@),
            Routed::Reject(n) => RoutedView::Reject(n@),
        }
    }
}

/// Whether a password opens the administrative commands: one is configured,
/// and it is the one given.
pub open spec fn admitted(password: Seq<char>, configured: Option<Seq<char>>) -> bool {
    configured == Some(password)
}

/// The refusal of an administrative command.
pub open spec fn wrong_password() -> RoutedView {
    RoutedView::Reject(NoticeView::Text("Wrong password"@))
}

/// Where a message goes. A request for a seat, a move, a report and a vote
/// go on as they are; a clean-up goes on only with the configured password.
pub open spec fn routed(msg: MessageTypeView, configured: Option<Seq<char>>) -> RoutedView {
    match msg {
        MessageTypeView::InitiateGame { username, character_type, color } => RoutedView::Forward(
            CommandView::Connect(
                ConnectView { username, character_type, has_addr: true, game_id: None },
            ),
        ),
        MessageTypeView::ChooseCard { card_number, location, player_id, pk, turn_id, game_id } => {
            RoutedView::Forward(
                CommandView::Mutation(
                    MutationMessageView {
                        mutation: Mutation {
                            user_id: player_id,
                            card_type: card_number,
                            card_location: location,
                        },
                        player_id,
                        pk,
                        turn_id,
                        game_id,
                    },
                ),
            )
        },
        MessageTypeView::AnimationsDone { player_id, pk, turn_id, game_id } => RoutedView::Forward(
            CommandView::Animation(AnimationMessageView { player_id, pk, game_id, turn_id }),
        ),
        MessageTypeView::PollPlayerDied { other_id, self_id, pk, turn_id, game_id } => {
            RoutedView::Forward(
                CommandView::PollPlayerDeath(
                    PollPlayerDeathMessageView { other_id, self_id, pk, game_id, turn_id },
                ),
            )
        },
        MessageTypeView::Prune { password } => if admitted(password, configured) {
            RoutedView::Forward(CommandView::Prune(MessagePrune {  }))
        } else {
            wrong_password()
        },
        MessageTypeView::FullClean { password } => if admitted(password, configured) {
            RoutedView::Forward(CommandView::FullClean(MessageFullClean {  }))
        } else {
            wrong_password()
        },
    }
}

/// The value of a configured password.
pub open spec fn password_view(configured: Option<String>) -> Option<Seq<char>> {
    match configured {
        Some(p) => Some(p@),
        None => None,
    }
}

/// Whether a password opens the administrative commands.
pub fn is_admitted(password: &String, configured: &Option<String>) -> (ok: bool)
    ensures
        ok == admitted(password@, password_view(*configured)),
{
    match configured {
        Some(expected) => *expected == *password,
        None => false,
    }
}

/// Where a message goes, given the password that is configured, if any.
pub fn route(msg: MessageType, configured: &Option<String>) -> (to: Routed)
    ensures
        to@ == routed(msg@, password_view(*configured)),
{
    match msg {
        MessageType::InitiateGame { username, character_type, color } => Routed::Forward(
            Command::Connect(Connect { username, character_type, has_addr: true, game_id: None }),
        ),
        MessageType::ChooseCard { card_number, location, player_id, pk, turn_id, game_id } => {
            Routed::Forward(
                Command::Mutation(
                    MutationMessage {
                        mutation: Mutation {
                            user_id: player_id,
                            card_type: card_number,
                            card_location: location,
                        },
                        player_id,
                        pk,
                        turn_id,
                        game_id,
                    },
                ),
            )
        },
        MessageType::AnimationsDone { player_id, pk, turn_id, game_id } => Routed::Forward(
            Command::Animation(AnimationMessage { player_id, pk, game_id, turn_id }),
        ),
        MessageType::PollPlayerDied { other_id, self_id, pk, turn_id, game_id } => Routed::Forward(
            Command::PollPlayerDeath(
                PollPlayerDeathMessage { other_id, self_id, pk, game_id, turn_id },
            ),
        ),
        MessageType::Prune { password } => if is_admitted(&password, configured) {
            Routed::Forward(Command::Prune(MessagePrune {  }))
        } else {
            Routed::Reject(Notice::Text(String::from_str("Wrong password")))
        },
        MessageType::FullClean { password } => if is_admitted(&password, configured) {
            Routed::Forward(Command::FullClean(MessageFullClean {  }))
        } else {
            Routed::Reject(Notice::Text(String::from_str("Wrong password")))
        },
    }
}

/// Whether the countdown of a lobby still runs after the given time.
pub open spec fn counting(elapsed_secs: u64, elapsed_nanos: u32) -> bool {
    elapsed_secs < COUNTDOWN_SECS || (elapsed_secs == COUNTDOWN_SECS && elapsed_nanos == 0)
}

/// What a tick of the countdown stands for.
pub open spec fn countdown_command(
    game_id: usize,
    elapsed_secs: u64,
    elapsed_nanos: u32,
) -> CommandView {
    if counting(elapsed_secs, elapsed_nanos) {
        CommandView::BroadcastStr(
            BroadcastStrView {
                json_string: till_start_text((COUNTDOWN_SECS - elapsed_secs) as nat),
                ori_player_id: None,
                game_id,
            },
        )
    } else {
        CommandView::CreateTurn(CreateTurnMessage { game_id, check_turn_id: None })
    }
}

/// What a tick of the countdown stands for, given the time since the lobby
/// opened: until the thirty seconds are over, a notice of the whole seconds
/// that are left; after that, the request for the first turn.
pub fn countdown_tick(game_id: usize, elapsed_secs: u64, elapsed_nanos: u32) -> (cmd: Command)
    ensures
        cmd@ == countdown_command(game_id, elapsed_secs, elapsed_nanos),
{
    if elapsed_secs < COUNTDOWN_SECS || (elapsed_secs == COUNTDOWN_SECS && elapsed_nanos == 0) {
        Command::BroadcastStr(
            BroadcastStr {
                json_string: till_start((COUNTDOWN_SECS - elapsed_secs) as usize),
                ori_player_id: None,
                game_id,
            },
        )
    } else {
        Command::CreateTurn(CreateTurnMessage { game_id, check_turn_id: None })
    }
}

} // verus!
