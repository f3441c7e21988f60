use game_coordinator::actions::{Action, Notice, Outcome};
use game_coordinator::messages::{CardChoiceMessage, Connect, MutationMessage};
use game_coordinator::models::Mutation;
use game_coordinator::server::{GameServer, SeatDraws};

const MOVES_GAME: usize = 31;

fn moves_draws(secret: &str) -> SeatDraws {
    SeatDraws {
        session_key: MOVES_GAME,
        positions: vec![
            (0, 1),
            (1, 1),
            (2, 1),
            (3, 1),
            (4, 1),
            (5, 1),
            (6, 1),
            (7, 1),
            (8, 1),
            (9, 1),
        ],
        private_key: String::from(secret),
        facing: 0,
        card: 0,
    }
}

// Seats 0 and 1 are persons, seat 2 is a computer player; seats 0 and 2
// are offered cards, seat 1 is offered others.
fn moves_server() -> GameServer {
    let mut server = GameServer::new();
    for (name, secret) in [("ann", "key-of-ann"), ("bob", "key-of-bob")] {
        server.connect_with(
            Connect {
                username: String::from(name),
                character_type: 0,
                has_addr: true,
                game_id: None,
            },
            moves_draws(secret),
        );
    }
    server.connect_with(
        Connect {
            username: String::from("Bot 0"),
            character_type: 0,
            has_addr: false,
            game_id: Some(MOVES_GAME),
        },
        moves_draws("key-of-bot"),
    );
    server.card_choice_with(
        CardChoiceMessage { game_id: MOVES_GAME, turn_id: 0 },
        &vec![(1, 2, 3), (4, 5, 6), (1, 1, 1)],
    );
    server
}

fn submit(player_id: usize, pk: &str, card: u8) -> MutationMessage {
    MutationMessage {
        mutation: Mutation { user_id: player_id, card_type: card, card_location: 9 },
        player_id,
        pk: String::from(pk),
        turn_id: 0,
        game_id: MOVES_GAME,
    }
}

#[test]
fn a_card_on_offer_is_accepted_and_passed_on_to_the_others() {
    let mut server = moves_server();
    let out = server.handle_mutation(submit(0, "key-of-ann", 2));
    assert_eq!(
        out,
        Outcome {
            reply: 0,
            actions: vec![Action::Broadcast {
                game_id: MOVES_GAME,
                player_ids: vec![1],
                notice: Notice::Move(Mutation { user_id: 0, card_type: 2, card_location: 9 }),
            }],
        }
    );
    let game = server.session(MOVES_GAME).unwrap();
    assert_eq!(
        game.players[0].previous_choices,
        vec![Mutation { user_id: 0, card_type: 2, card_location: 9 }]
    );
    assert_eq!(game.players[0].card_options, None);
    assert_eq!(game.players[1].card_options, Some(vec![4, 5, 6]));
}

#[test]
fn an_offer_is_used_up_by_one_move() {
    let mut server = moves_server();
    server.handle_mutation(submit(0, "key-of-ann", 2));
    let again = server.handle_mutation(submit(0, "key-of-ann", 2));
    assert_eq!(
        again,
        Outcome {
            reply: 0,
            actions: vec![Action::Send {
                game_id: MOVES_GAME,
                player_id: 0,
                notice: Notice::Text(String::from("Card not in option")),
            }],
        }
    );
    assert_eq!(server.session(MOVES_GAME).unwrap().players[0].previous_choices.len(), 1);
}

#[test]
fn a_wrong_secret_is_refused_and_changes_nothing() {
    let mut server = moves_server();
    let out = server.handle_mutation(submit(0, "key-of-bob", 2));
    assert_eq!(
        out,
        Outcome {
            reply: 0,
            actions: vec![Action::Send {
                game_id: MOVES_GAME,
                player_id: 0,
                notice: Notice::Text(String::from("Wrong pk")),
            }],
        }
    );
    let game = server.session(MOVES_GAME).unwrap();
    assert!(game.players[0].previous_choices.is_empty());
    assert_eq!(game.players[0].card_options, Some(vec![1, 2, 3]));
    assert_eq!(*game, *moves_server().session(MOVES_GAME).unwrap());
}

#[test]
fn a_card_that_is_not_on_offer_is_refused_and_changes_nothing() {
    let mut server = moves_server();
    let out = server.handle_mutation(submit(0, "key-of-ann", 4));
    assert_eq!(
        out,
        Outcome {
            reply: 0,
            actions: vec![Action::Send {
                game_id: MOVES_GAME,
                player_id: 0,
                notice: Notice::Text(String::from("Card not in option")),
            }],
        }
    );
    assert_eq!(*server.session(MOVES_GAME).unwrap(), *moves_server().session(MOVES_GAME).unwrap());
}

#[test]
fn a_computer_player_may_play_any_card() {
    let mut server = moves_server();
    let out = server.handle_mutation(submit(2, "key-of-bot", 37));
    assert_eq!(
        out,
        Outcome {
            reply: 2,
            actions: vec![Action::Broadcast {
                game_id: MOVES_GAME,
                player_ids: vec![0, 1],
                notice: Notice::Move(Mutation { user_id: 2, card_type: 37, card_location: 9 }),
            }],
        }
    );
    let game = server.session(MOVES_GAME).unwrap();
    assert_eq!(game.players[2].previous_choices.len(), 1);
    assert_eq!(game.players[2].card_options, None);
    let second = server.handle_mutation(submit(2, "key-of-bot", 5));
    assert_eq!(second.actions.len(), 1);
    assert_eq!(server.session(MOVES_GAME).unwrap().players[2].previous_choices.len(), 2);
}

#[test]
fn a_computer_player_with_a_wrong_secret_is_refused_in_silence() {
    let mut server = moves_server();
    let out = server.handle_mutation(submit(2, "key-of-ann", 1));
    assert_eq!(out, Outcome { reply: 2, actions: vec![] });
    assert!(server.session(MOVES_GAME).unwrap().players[2].previous_choices.is_empty());
}

#[test]
fn a_move_for_a_seat_that_does_not_exist_is_dropped() {
    let mut server = moves_server();
    let out = server.handle_mutation(submit(3, "key-of-ann", 1));
    assert_eq!(out, Outcome { reply: 3, actions: vec![] });
    assert_eq!(*server.session(MOVES_GAME).unwrap(), *moves_server().session(MOVES_GAME).unwrap());
}

#[test]
fn a_move_for_a_session_that_is_gone_is_dropped() {
    let mut server = moves_server();
    let mut m = submit(0, "key-of-ann", 2);
    m.game_id = MOVES_GAME + 1;
    let out = server.handle_mutation(m);
    assert_eq!(out, Outcome { reply: 0, actions: vec![] });
    assert_eq!(*server.session(MOVES_GAME).unwrap(), *moves_server().session(MOVES_GAME).unwrap());
}
