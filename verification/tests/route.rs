use game_coordinator::actions::{BroadcastStr, Command, Notice};
use game_coordinator::messages::{
    AnimationMessage, Connect, CreateTurnMessage, MessageFullClean, MessagePrune,
    MutationMessage, PollPlayerDeathMessage,
};
use game_coordinator::models::Mutation;
use game_coordinator::route::{countdown_tick, is_admitted, route, MessageType, Routed};

#[test]
fn countdown_announces_the_seconds_left() {
    assert_eq!(
        countdown_tick(5, 0, 0),
        Command::BroadcastStr(BroadcastStr {
            json_string: String::from("{\"type\": \"TillStart\", \"secs\": \"30\"}"),
            ori_player_id: None,
            game_id: 5,
        })
    );
    assert_eq!(
        countdown_tick(5, 12, 999_999_999),
        Command::BroadcastStr(BroadcastStr {
            json_string: String::from("{\"type\": \"TillStart\", \"secs\": \"18\"}"),
            ori_player_id: None,
            game_id: 5,
        })
    );
    assert_eq!(
        countdown_tick(5, 30, 0),
        Command::BroadcastStr(BroadcastStr {
            json_string: String::from("{\"type\": \"TillStart\", \"secs\": \"0\"}"),
            ori_player_id: None,
            game_id: 5,
        })
    );
}

#[test]
fn countdown_asks_for_the_first_turn_after_thirty_seconds() {
    let first_turn = Command::CreateTurn(CreateTurnMessage { game_id: 5, check_turn_id: None });
    assert_eq!(countdown_tick(5, 30, 1), first_turn);
    assert_eq!(countdown_tick(5, 31, 0), first_turn);
    assert_eq!(countdown_tick(5, u64::MAX, 0), first_turn);
}

#[test]
fn a_request_for_a_seat_is_forwarded_as_a_person() {
    let msg = MessageType::InitiateGame {
        username: String::from("ann"),
        character_type: 2,
        color: Some(1),
    };
    assert_eq!(
        route(msg, &None),
        Routed::Forward(Command::Connect(Connect {
            username: String::from("ann"),
            character_type: 2,
            has_addr: true,
            game_id: None,
        }))
    );
}

#[test]
fn a_card_choice_is_forwarded_as_a_move() {
    let msg = MessageType::ChooseCard {
        card_number: 7,
        location: 3,
        player_id: 4,
        pk: String::from("secret"),
        turn_id: 2,
        game_id: 9,
    };
    assert_eq!(
        route(msg, &None),
        Routed::Forward(Command::Mutation(MutationMessage {
            mutation: Mutation { user_id: 4, card_type: 7, card_location: 3 },
            player_id: 4,
            pk: String::from("secret"),
            turn_id: 2,
            game_id: 9,
        }))
    );
}

#[test]
fn reports_and_votes_are_forwarded() {
    let done = MessageType::AnimationsDone {
        player_id: 1,
        pk: String::from("k"),
        turn_id: 2,
        game_id: 3,
    };
    assert_eq!(
        route(done, &None),
        Routed::Forward(Command::Animation(AnimationMessage {
            player_id: 1,
            pk: String::from("k"),
            game_id: 3,
            turn_id: 2,
        }))
    );
    let vote = MessageType::PollPlayerDied {
        other_id: 5,
        self_id: 1,
        pk: String::from("k"),
        turn_id: 2,
        game_id: 3,
    };
    assert_eq!(
        route(vote, &None),
        Routed::Forward(Command::PollPlayerDeath(PollPlayerDeathMessage {
            other_id: 5,
            self_id: 1,
            pk: String::from("k"),
            game_id: 3,
            turn_id: 2,
        }))
    );
}

#[test]
fn clean_up_needs_the_configured_password() {
    let configured = Some(String::from("hunter2"));
    assert_eq!(
        route(MessageType::Prune { password: String::from("hunter2") }, &configured),
        Routed::Forward(Command::Prune(MessagePrune {}))
    );
    assert_eq!(
        route(MessageType::FullClean { password: String::from("hunter2") }, &configured),
        Routed::Forward(Command::FullClean(MessageFullClean {}))
    );
    assert_eq!(
        route(MessageType::Prune { password: String::from("hunter3") }, &configured),
        Routed::Reject(Notice::Text(String::from("Wrong password")))
    );
    assert_eq!(
        route(MessageType::FullClean { password: String::from("") }, &configured),
        Routed::Reject(Notice::Text(String::from("Wrong password")))
    );
}

#[test]
fn clean_up_is_refused_where_no_password_is_configured() {
    assert_eq!(
        route(MessageType::FullClean { password: String::from("") }, &None),
        Routed::Reject(Notice::Text(String::from("Wrong password")))
    );
    assert!(!is_admitted(&String::from("x"), &None));
    assert!(is_admitted(&String::from("x"), &Some(String::from("x"))));
    assert!(!is_admitted(&String::from("x"), &Some(String::from("X"))));
}
