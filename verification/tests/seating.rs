use game_coordinator::actions::{Action, Command, Notice, Outcome};
use game_coordinator::messages::{Connect, CountDownMessage, CreateTurnMessage, MutationMessage, PlayerJoin};
use game_coordinator::models::{Mutation, Player, BOARD_SIZE, MAX_PLAYERS};
use game_coordinator::server::{board_cells, GameServer, SeatDraws};

fn seating_squares() -> Vec<(u16, u16)> {
    vec![(0, 1), (1, 2), (2, 3), (3, 4), (4, 5), (5, 6), (6, 7), (7, 8), (8, 1), (9, 2)]
}

fn seating_draws(key: usize, secret: &str) -> SeatDraws {
    SeatDraws {
        session_key: key,
        positions: seating_squares(),
        private_key: String::from(secret),
        facing: 2,
        card: 4,
    }
}

fn person(name: &str) -> Connect {
    Connect { username: String::from(name), character_type: 1, has_addr: true, game_id: None }
}

fn bot(name: &str, game_id: usize) -> Connect {
    Connect {
        username: String::from(name),
        character_type: 0,
        has_addr: false,
        game_id: Some(game_id),
    }
}

fn join_of(id: usize, name: &str, pos: (u16, u16), char_type: u8) -> PlayerJoin {
    PlayerJoin {
        user_id: id,
        username: String::from(name),
        x: pos.0,
        y: pos.1,
        char_type,
        start_orientation: 2,
    }
}

#[test]
fn the_first_person_opens_a_session() {
    let mut server = GameServer::new();
    let out = server.connect_with(person("ann"), seating_draws(77, "aaaaaaaaaa"));
    assert_eq!(server.session_count(), 1);
    let game = server.session(77).unwrap();
    assert!(!game.game_started);
    assert_eq!(game.turn_index, 0);
    assert_eq!(game.board_size, BOARD_SIZE);
    assert_eq!(game.players.len(), 1);
    assert_eq!(game.available_pos, seating_squares()[1..].to_vec());
    let ann = Player::with_draws(
        0,
        77,
        String::from("ann"),
        1,
        (0, 1),
        false,
        true,
        String::from("aaaaaaaaaa"),
        2,
    );
    assert_eq!(game.players[0], ann);
    assert_eq!(
        out,
        Outcome {
            reply: 0,
            actions: vec![
                Action::StartTicker { game_id: 77 },
                Action::Enqueue(Command::CountDown(CountDownMessage { game_id: 77 })),
                Action::Reply(Notice::Seat(ann)),
                Action::Reply(Notice::Join(join_of(0, "ann", (0, 1), 1))),
                Action::Broadcast {
                    game_id: 77,
                    player_ids: vec![],
                    notice: Notice::Join(join_of(0, "ann", (0, 1), 1)),
                },
            ],
        }
    );
}

#[test]
fn the_second_person_joins_the_open_session() {
    let mut server = GameServer::new();
    server.connect_with(person("ann"), seating_draws(77, "aaaaaaaaaa"));
    let out = server.connect_with(person("bob"), seating_draws(78, "bbbbbbbbbb"));
    assert_eq!(server.session_count(), 1);
    assert!(!server.has_session(78));
    let game = server.session(77).unwrap();
    assert_eq!(game.players.len(), 2);
    assert_eq!(game.players[1].id, 1);
    assert_eq!(game.players[1].pos, (1, 2, 2));
    assert_eq!(game.players[1].private_key, "bbbbbbbbbb");
    assert_eq!(game.players[1].game_id, 77);
    assert!(!game.players[1].is_ai);
    assert_eq!(out.reply, 1);
    assert_eq!(out.actions.len(), 4);
    assert_eq!(out.actions[1], Action::Reply(Notice::Join(join_of(0, "ann", (0, 1), 1))));
    assert_eq!(out.actions[2], Action::Reply(Notice::Join(join_of(1, "bob", (1, 2), 1))));
    assert_eq!(
        out.actions[3],
        Action::Broadcast {
            game_id: 77,
            player_ids: vec![0],
            notice: Notice::Join(join_of(1, "bob", (1, 2), 1)),
        }
    );
}

#[test]
fn a_computer_player_moves_at_once_and_hears_nothing() {
    let mut server = GameServer::new();
    server.connect_with(person("ann"), seating_draws(77, "aaaaaaaaaa"));
    let out = server.connect_with(bot("Bot 0", 77), seating_draws(1, "cccccccccc"));
    let game = server.session(77).unwrap();
    assert!(game.players[1].is_ai);
    assert!(!game.players[1].has_addr);
    assert_eq!(
        out,
        Outcome {
            reply: 1,
            actions: vec![
                Action::Broadcast {
                    game_id: 77,
                    player_ids: vec![0],
                    notice: Notice::Join(PlayerJoin {
                        user_id: 1,
                        username: String::from("Bot 0"),
                        x: 1,
                        y: 2,
                        char_type: 0,
                        start_orientation: 2,
                    }),
                },
                Action::Enqueue(Command::Mutation(MutationMessage {
                    mutation: Mutation { user_id: 1, card_type: 4, card_location: 0 },
                    player_id: 1,
                    pk: String::from("cccccccccc"),
                    turn_id: 0,
                    game_id: 77,
                })),
            ],
        }
    );
}

#[test]
fn a_computer_player_for_a_session_that_is_gone_is_dropped() {
    let mut server = GameServer::new();
    let out = server.connect_with(bot("Bot 0", 5), seating_draws(1, "cccccccccc"));
    assert_eq!(out, Outcome { reply: 0, actions: vec![] });
    assert_eq!(server.session_count(), 0);
}

#[test]
fn the_last_seat_asks_for_the_first_turn() {
    let mut server = GameServer::new();
    for i in 0..MAX_PLAYERS - 1 {
        let out = server.connect_with(person("p"), seating_draws(77, "aaaaaaaaaa"));
        assert_eq!(out.reply, i);
        assert!(!out
            .actions
            .contains(&Action::Enqueue(Command::CreateTurn(CreateTurnMessage {
                game_id: 77,
                check_turn_id: None,
            }))));
    }
    let out = server.connect_with(person("last"), seating_draws(77, "aaaaaaaaaa"));
    assert_eq!(out.reply, 9);
    assert_eq!(
        out.actions.last(),
        Some(&Action::Enqueue(Command::CreateTurn(CreateTurnMessage {
            game_id: 77,
            check_turn_id: None,
        })))
    );
    assert!(server.session(77).unwrap().available_pos.is_empty());
}

#[test]
fn a_full_session_refuses_and_seats_nobody() {
    let mut server = GameServer::new();
    for _ in 0..MAX_PLAYERS {
        server.connect_with(person("p"), seating_draws(77, "aaaaaaaaaa"));
    }
    let out = server.connect_with(person("late"), seating_draws(78, "aaaaaaaaaa"));
    assert_eq!(
        out,
        Outcome {
            reply: 0,
            actions: vec![Action::Reply(Notice::Text(String::from("Game already full: 77")))],
        }
    );
    assert_eq!(server.session(77).unwrap().players.len(), MAX_PLAYERS);
    let silent = server.connect_with(bot("Bot 0", 77), seating_draws(78, "aaaaaaaaaa"));
    assert_eq!(silent, Outcome { reply: 0, actions: vec![] });
}

#[test]
fn no_two_participants_share_a_square() {
    let mut server = GameServer::new();
    for _ in 0..MAX_PLAYERS {
        server.connect_with(person("p"), seating_draws(77, "aaaaaaaaaa"));
    }
    let game = server.session(77).unwrap();
    for i in 0..game.players.len() {
        for j in 0..i {
            let a = game.players[i].pos;
            let b = game.players[j].pos;
            assert_ne!((a.0, a.1), (b.0, b.1));
        }
    }
}

#[test]
fn drawn_seats_are_distinct_squares_of_the_board() {
    let mut server = GameServer::new();
    let mut game_id = 0;
    for i in 0..MAX_PLAYERS {
        let out = server.handle_connect(person("p"));
        assert_eq!(out.reply, i);
        if i == 0 {
            game_id = server.session_ids()[0];
            assert!(game_id <= u32::MAX as usize);
            let lobby = server.session(game_id).unwrap();
            assert_eq!(lobby.players.len() + lobby.available_pos.len(), MAX_PLAYERS);
        }
    }
    assert_eq!(server.session_count(), 1);
    let game = server.session(game_id).unwrap();
    assert_eq!(game.players.len(), MAX_PLAYERS);
    for i in 0..MAX_PLAYERS {
        let p = &game.players[i];
        assert_eq!(p.id, i);
        assert_eq!(p.game_id, game_id);
        assert!(p.pos.0 < BOARD_SIZE.0);
        assert!(1 <= p.pos.1 && p.pos.1 < BOARD_SIZE.1);
        assert!(p.pos.2 < 4);
        assert_eq!(p.private_key.len(), 10);
        assert!(p.private_key.chars().all(|c| c.is_ascii_alphanumeric()));
        for j in 0..i {
            let q = &game.players[j];
            assert_ne!((p.pos.0, p.pos.1), (q.pos.0, q.pos.1));
        }
    }
}

#[test]
fn the_board_has_128_starting_squares() {
    let cells = board_cells();
    assert_eq!(cells.len(), 128);
    assert_eq!(cells[0], (0, 1));
    assert_eq!(cells[7], (0, 8));
    assert_eq!(cells[8], (1, 1));
    assert_eq!(cells[127], (15, 8));
}

#[test]
fn a_newcomer_goes_to_the_open_session_with_the_least_number() {
    let mut server = GameServer::new();
    server.connect_with(person("a"), seating_draws(50, "aaaaaaaaaa"));
    assert_eq!(server.find_open(), Some(50));
    let mut squares = seating_squares();
    squares.reverse();
    let draws = SeatDraws {
        session_key: 1,
        positions: squares,
        private_key: String::from("k"),
        facing: 0,
        card: 0,
    };
    server.connect_with(person("b"), draws);
    assert_eq!(server.session_count(), 1);
    assert_eq!(server.session(50).unwrap().players.len(), 2);
}
