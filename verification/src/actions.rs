//! What a handler hands back: notices for participants, follow-up commands
//! and timer requests, in the order in which they are to be carried out.

use vstd::prelude::*;
use crate::messages::{
    AnimationMessage, AnimationMessageView, CardChoiceMessage, CardOptions, CardOptionsView,
    Connect, ConnectView, CountDownMessage, CreateTurnMessage, DeleteGame, Disconnect,
    GameTickerMessage, GameTickerMessageView, MessageFullClean, MessagePrune, MutationMessage,
    MutationMessageView, PlayerDied, PlayerJoin, PlayerJoinView, PollPlayerDeathMessage,
    PollPlayerDeathMessageView,
};
use crate::models::{Mutation, Player, PlayerView};

verus! {

/// A message for a participant.
#[derive(Debug, PartialEq, Eq)]
pub enum Notice {
    /// The participant's own record, secret included.
    Seat(Player),
    /// A participant of the session, as the others see it.
    Join(PlayerJoin),
    /// The cards to choose from this turn.
    Offer(CardOptions),
    /// A move that was accepted.
    Move(Mutation),
    /// A participant was eliminated.
    Died(PlayerDied),
    /// Plain text.
    Text(String),
}

pub enum NoticeView {
    Seat(PlayerView),
    Join(PlayerJoinView),
    Offer(CardOptionsView),
    Move(Mutation),
    Died(PlayerDied),
    Text(Seq<char>),
}

impl View for Notice {
    type V = NoticeView;

    open spec fn view(&self) -> NoticeView {
        match self {
            Notice::Seat(p) => NoticeView::Seat(p@),
            Notice::Join(j) => NoticeView::Join(j@),
            Notice::Offer(o) => NoticeView::Offer(o@),
            Notice::Move(m) => NoticeView::Move(*m),
            Notice::Died(d) => NoticeView::Died(*d),
            Notice::Text(t) => NoticeView::Text(t@),
        }
    }
}

/// Sends a notice to the participants listed, but for `ori_player_id`.
#[derive(Debug, PartialEq, Eq)]
pub struct BroadcastObj {
    pub notice: Notice,
    pub ori_player_id: Option<usize>,
    pub game_id: usize,
    pub player_ids: Vec<usize>,
}

pub struct BroadcastObjView {
    pub notice: NoticeView,
    pub ori_player_id: Option<usize>,
    pub game_id: usize,
    pub player_ids: Seq<usize>,
}

impl View for BroadcastObj {
    type V = BroadcastObjView;

    open spec fn view(&self) -> BroadcastObjView {
        BroadcastObjView {
            notice: self.notice@,
            ori_player_id: self.ori_player_id,
            game_id: self.game_id,
            player_ids: self.player_ids@,
        }
    }
}

/// Sends a text to every connected participant of a session, but for
/// `ori_player_id`.
#[derive(Debug, PartialEq, Eq)]
pub struct BroadcastStr {
    pub json_string: String,
    pub ori_player_id: Option<usize>,
    pub game_id: usize,
}

pub struct BroadcastStrView {
    pub json_string: Seq<char>,
    pub ori_player_id: Option<usize>,
    pub game_id: usize,
}

impl View for BroadcastStr {
    type V = BroadcastStrView;

    open spec fn view(&self) -> BroadcastStrView {
        BroadcastStrView {
            json_string: self.json_string@,
            ori_player_id: self.ori_player_id,
            game_id: self.game_id,
        }
    }
}

/// Everything the coordinator can be asked to do.
#[derive(Debug, PartialEq, Eq)]
pub enum Command {
    Connect(Connect),
    Mutation(MutationMessage),
    CountDown(CountDownMessage),
    CreateTurn(CreateTurnMessage),
    CardChoice(CardChoiceMessage),
    Animation(AnimationMessage),
    PollPlayerDeath(PollPlayerDeathMessage),
    GameTicker(GameTickerMessage),
    DeleteGame(DeleteGame),
    BroadcastObj(BroadcastObj),
    BroadcastStr(BroadcastStr),
    Prune(MessagePrune),
    FullClean(MessageFullClean),
    Disconnect(Disconnect),
}

pub enum CommandView {
    Connect(ConnectView),
    Mutation(MutationMessageView),
    CountDown(CountDownMessage),
    CreateTurn(CreateTurnMessage),
    CardChoice(CardChoiceMessage),
    Animation(AnimationMessageView),
    PollPlayerDeath(PollPlayerDeathMessageView),
    GameTicker(GameTickerMessageView),
    DeleteGame(DeleteGame),
    BroadcastObj(BroadcastObjView),
    BroadcastStr(BroadcastStrView),
    Prune(MessagePrune),
    FullClean(MessageFullClean),
    Disconnect(Disconnect),
}

impl View for Command {
    type V = CommandView;

    open spec fn view(&self) -> CommandView {
        match self {
            Command::Connect(m) => CommandView::Connect(m@),
            Command::Mutation(m) => CommandView::Mutation(m@),
            Command::CountDown(m) => CommandView::CountDown(*m),
            Command::CreateTurn(m) => CommandView::CreateTurn(*m),
            Command::CardChoice(m) => CommandView::CardChoice(*m),
            Command::Animation(m) => CommandView::Animation(m@),
            Command::PollPlayerDeath(m) => CommandView::PollPlayerDeath(m@),
            Command::GameTicker(m) => CommandView::GameTicker(m@),
            Command::DeleteGame(m) => CommandView::DeleteGame(*m),
            Command::BroadcastObj(m) => CommandView::BroadcastObj(m@),
            Command::BroadcastStr(m) => CommandView::BroadcastStr(m@),
            Command::Prune(m) => CommandView::Prune(*m),
            Command::FullClean(m) => CommandView::FullClean(*m),
            Command::Disconnect(m) => CommandView::Disconnect(*m),
        }
    }
}

/// One thing for the caller of a handler to carry out.
#[derive(Debug, PartialEq, Eq)]
pub enum Action {
    /// Answer whoever sent the command.
    Reply(Notice),
    /// Send a notice to one participant of a session.
    Send { game_id: usize, player_id: usize, notice: Notice },
    /// Send a notice to each of the participants listed.
    Broadcast { game_id: usize, player_ids: Vec<usize>, notice: Notice },
    /// Hand a command back to the coordinator, after those already waiting.
    Enqueue(Command),
    /// Start the periodic tick of a session.
    StartTicker { game_id: usize },
    /// Start the once-a-second countdown of a lobby.
    StartCountdown { game_id: usize },
    /// Stop the countdown of a lobby.
    CancelCountdown { game_id: usize },
    /// Stop the periodic tick of a session.
    CancelTicker { game_id: usize },
    /// After the stall delay, ask for an advance that is dropped unless
    /// the session is still at `turn_index`.
    ScheduleAdvance { game_id: usize, turn_index: usize },
}

pub enum ActionView {
    Reply(NoticeView),
    Send { game_id: usize, player_id: usize, notice: NoticeView },
    Broadcast { game_id: usize, player_ids: Seq<usize>, notice: NoticeView },
    Enqueue(CommandView),
    StartTicker { game_id: usize },
    StartCountdown { game_id: usize },
    CancelCountdown { game_id: usize },
    CancelTicker { game_id: usize },
    ScheduleAdvance { game_id: usize, turn_index: usize },
}

impl View for Action {
    type V = ActionView;

    open spec fn view(&self) -> ActionView {
        match self {
            Action::Reply(n) => ActionView::Reply(n@),
            Action::Send { game_id, player_id, notice } => ActionView::Send {
                game_id: *game_id,
                player_id: *player_id,
                notice: notice@,
            },
            Action::Broadcast { game_id, player_ids, notice } => ActionView::Broadcast {
                game_id: *game_id,
                player_ids: player_ids@,
                notice: notice@,
            },
            Action::Enqueue(c) => ActionView::Enqueue(c@),
            Action::StartTicker { game_id } => ActionView::StartTicker { game_id: *game_id },
            Action::StartCountdown { game_id } => ActionView::StartCountdown { game_id: *game_id },
            Action::CancelCountdown { game_id } => ActionView::CancelCountdown {
                game_id: *game_id,
            },
            Action::CancelTicker { game_id } => ActionView::CancelTicker { game_id: *game_id },
            Action::ScheduleAdvance { game_id, turn_index } => ActionView::ScheduleAdvance {
                game_id: *game_id,
                turn_index: *turn_index,
            },
        }
    }
}

/// The values of a list of actions.
pub open spec fn action_views(actions: Seq<Action>) -> Seq<ActionView> {
    Seq::new(actions.len(), |i: int| actions[i]@)
}

/// The values of a list with one more action are those of the list with
/// the value of that action.
pub proof fn lemma_action_views_push(actions: Seq<Action>, action: Action)
    ensures
        action_views(actions.push(action)) == action_views(actions).push(action@),
{
    assert(action_views(actions.push(action)) =~= action_views(actions).push(action@));
}

/// The values of two lists of actions, one after the other, are the values
/// of the first followed by those of the second.
pub proof fn lemma_action_views_add(first: Seq<Action>, second: Seq<Action>)
    ensures
        action_views(first + second) == action_views(first) + action_views(second),
{
    assert(action_views(first + second) =~= action_views(first) + action_views(second));
}

/// What a handler returns: its answer, and the actions to carry out.
#[derive(Debug, PartialEq, Eq)]
pub struct Outcome {
    pub reply: usize,
    pub actions: Vec<Action>,
}

pub struct OutcomeView {
    pub reply: usize,
    pub actions: Seq<ActionView>,
}

impl View for Outcome {
    type V = OutcomeView;

    open spec fn view(&self) -> OutcomeView {
        OutcomeView { reply: self.reply, actions: action_views(self.actions@) }
    }
}

} // verus!
