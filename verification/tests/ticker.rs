use game_coordinator::actions::{Action, Command, Notice, Outcome};
use game_coordinator::messages::{
    AnimationMessage, Connect, CreateTurnMessage, DeleteGame, GameTickerMessage, PlayerDied,
    PollPlayerDeathMessage,
};
use game_coordinator::server::{GameServer, SeatDraws};
use game_coordinator::session::TurnDraws;

const TICK_GAME: usize = 3;

fn tick_draws() -> SeatDraws {
    SeatDraws {
        session_key: TICK_GAME,
        positions: vec![
            (0, 4),
            (1, 4),
            (2, 4),
            (3, 4),
            (4, 4),
            (5, 4),
            (6, 4),
            (7, 4),
            (8, 4),
            (9, 4),
        ],
        private_key: String::from("secret"),
        facing: 0,
        card: 0,
    }
}

// A started game with `persons` persons in seats 0.. and then `bots`
// computer players.
fn tick_server(persons: usize, bots: usize) -> GameServer {
    let mut server = GameServer::new();
    for _ in 0..persons {
        server.connect_with(
            Connect {
                username: String::from("p"),
                character_type: 0,
                has_addr: true,
                game_id: None,
            },
            tick_draws(),
        );
    }
    for _ in 0..bots {
        server.connect_with(
            Connect {
                username: String::from("b"),
                character_type: 0,
                has_addr: false,
                game_id: Some(TICK_GAME),
            },
            tick_draws(),
        );
    }
    let n = persons + bots;
    server.create_turn_with(
        CreateTurnMessage { game_id: TICK_GAME, check_turn_id: None },
        &TurnDraws {
            characters: vec![0; 10],
            picks: vec![0; n],
            late_cards: vec![0; n],
            next_cards: vec![0; n],
        },
    );
    server
}

fn tick(live: Vec<bool>) -> GameTickerMessage {
    GameTickerMessage { game_id: TICK_GAME, live }
}

fn report(server: &mut GameServer, player_id: usize) -> Outcome {
    server.handle_animation(AnimationMessage {
        player_id,
        pk: String::from("secret"),
        game_id: TICK_GAME,
        turn_id: 0,
    })
}

fn gone(target: usize, to: Vec<usize>) -> Action {
    Action::Broadcast {
        game_id: TICK_GAME,
        player_ids: to,
        notice: Notice::Died(PlayerDied { user_id: target }),
    }
}

fn next_turn() -> Action {
    Action::Enqueue(Command::CreateTurn(CreateTurnMessage {
        game_id: TICK_GAME,
        check_turn_id: None,
    }))
}

fn end_of_game() -> Action {
    Action::Enqueue(Command::DeleteGame(DeleteGame { game_id: TICK_GAME }))
}

#[test]
fn a_tick_in_the_lobby_does_nothing() {
    let mut server = GameServer::new();
    server.connect_with(
        Connect { username: String::from("p"), character_type: 0, has_addr: true, game_id: None },
        tick_draws(),
    );
    let out = server.handle_game_ticker(tick(vec![false]));
    assert_eq!(out, Outcome { reply: TICK_GAME, actions: vec![] });
    assert!(server.session(TICK_GAME).unwrap().players[0].active);
}

#[test]
fn a_tick_for_a_session_that_is_gone_does_nothing() {
    let mut server = tick_server(2, 0);
    let out = server.handle_game_ticker(GameTickerMessage { game_id: 99, live: vec![true, true] });
    assert_eq!(out, Outcome { reply: 99, actions: vec![] });
}

#[test]
fn a_tick_waits_for_the_animations_of_everyone_connected() {
    let mut server = tick_server(3, 1);
    report(&mut server, 0);
    report(&mut server, 1);
    let out = server.handle_game_ticker(tick(vec![true, true, true, false]));
    assert_eq!(out, Outcome { reply: TICK_GAME, actions: vec![] });
    let game = server.session(TICK_GAME).unwrap();
    assert!(game.players[0].animation_done);
    assert!(!game.players[2].animation_done);
}

#[test]
fn a_tick_moves_on_once_all_animations_are_in() {
    let mut server = tick_server(3, 1);
    for i in 0..3 {
        report(&mut server, i);
    }
    let out = server.handle_game_ticker(tick(vec![true, true, true]));
    assert_eq!(out, Outcome { reply: TICK_GAME, actions: vec![next_turn()] });
    let game = server.session(TICK_GAME).unwrap();
    for p in game.players.iter() {
        assert!(!p.animation_done);
        assert!(p.active);
    }
}

#[test]
fn a_lost_connection_puts_its_participant_out_of_the_game() {
    let mut server = tick_server(3, 1);
    report(&mut server, 0);
    report(&mut server, 1);
    let out = server.handle_game_ticker(tick(vec![true, true, false, true]));
    assert_eq!(
        out,
        Outcome { reply: TICK_GAME, actions: vec![gone(2, vec![0, 1, 2]), next_turn()] }
    );
    let game = server.session(TICK_GAME).unwrap();
    assert!(!game.players[2].active);
    assert!(game.players[3].active);
    // It is announced once only.
    let again = server.handle_game_ticker(tick(vec![true, true, false, true]));
    assert_eq!(again.actions, vec![]);
}

#[test]
fn a_participant_beyond_the_list_counts_as_gone() {
    let mut server = tick_server(2, 1);
    let out = server.handle_game_ticker(tick(vec![]));
    assert_eq!(
        out,
        Outcome {
            reply: TICK_GAME,
            actions: vec![gone(0, vec![0, 1]), gone(1, vec![0, 1]), end_of_game()],
        }
    );
}

#[test]
fn a_session_without_connected_persons_ends() {
    let mut server = tick_server(1, 3);
    let out = server.handle_game_ticker(tick(vec![false, false, false, false]));
    assert_eq!(
        out,
        Outcome { reply: TICK_GAME, actions: vec![gone(0, vec![0]), end_of_game()] }
    );
    let done = server.handle_delete_game(DeleteGame { game_id: TICK_GAME });
    assert_eq!(
        done,
        Outcome { reply: TICK_GAME, actions: vec![Action::CancelTicker { game_id: TICK_GAME }] }
    );
    assert!(!server.has_session(TICK_GAME));
    let twice = server.handle_delete_game(DeleteGame { game_id: TICK_GAME });
    assert_eq!(twice, Outcome { reply: TICK_GAME, actions: vec![] });
}

#[test]
fn one_person_left_after_an_elimination_ends_the_session_on_the_next_tick() {
    let mut server = tick_server(2, 0);
    let vote = server.handle_poll_player_death(PollPlayerDeathMessage {
        other_id: 1,
        self_id: 0,
        pk: String::from("secret"),
        game_id: TICK_GAME,
        turn_id: 0,
    });
    assert_eq!(vote.actions, vec![gone(1, vec![0, 1])]);
    report(&mut server, 0);
    report(&mut server, 1);
    let out = server.handle_game_ticker(tick(vec![true, true]));
    assert_eq!(out, Outcome { reply: TICK_GAME, actions: vec![end_of_game()] });
    assert!(server.has_session(TICK_GAME));
    let mut stops = vec![];
    for action in out.actions {
        if let Action::Enqueue(cmd) = action {
            stops.extend(server.handle(cmd).actions);
        }
    }
    assert_eq!(stops, vec![Action::CancelTicker { game_id: TICK_GAME }]);
    assert!(!server.has_session(TICK_GAME));
    assert_eq!(server.session_count(), 0);
}

#[test]
fn the_turn_stalls_when_nine_persons_in_ten_have_reported() {
    let mut server = tick_server(10, 0);
    for i in 0..8 {
        assert_eq!(report(&mut server, i), Outcome { reply: i, actions: vec![] });
    }
    assert!(!server.session(TICK_GAME).unwrap().has_loop_countdown);
    let ninth = report(&mut server, 8);
    assert_eq!(
        ninth,
        Outcome {
            reply: 8,
            actions: vec![Action::ScheduleAdvance { game_id: TICK_GAME, turn_index: 0 }],
        }
    );
    assert!(server.session(TICK_GAME).unwrap().has_loop_countdown);
    // Only one delayed advance is asked for per turn.
    assert_eq!(report(&mut server, 8), Outcome { reply: 8, actions: vec![] });
    assert_eq!(report(&mut server, 9), Outcome { reply: 9, actions: vec![] });
}

#[test]
fn an_advance_clears_the_mark_of_a_pending_delayed_advance() {
    let mut server = tick_server(10, 0);
    for i in 0..9 {
        report(&mut server, i);
    }
    assert!(server.session(TICK_GAME).unwrap().has_loop_countdown);
    let draws = TurnDraws {
        characters: vec![0; 10],
        picks: vec![0; 10],
        late_cards: vec![0; 10],
        next_cards: vec![0; 10],
    };
    server.create_turn_with(CreateTurnMessage { game_id: TICK_GAME, check_turn_id: Some(0) }, &draws);
    let game = server.session(TICK_GAME).unwrap();
    assert!(!game.has_loop_countdown);
    assert_eq!(game.turn_index, 1);
    // The delayed advance of the turn that is over comes too late.
    let late = server.create_turn_with(
        CreateTurnMessage { game_id: TICK_GAME, check_turn_id: Some(0) },
        &draws,
    );
    assert_eq!(late, Outcome { reply: 0, actions: vec![] });
    assert_eq!(server.session(TICK_GAME).unwrap().turn_index, 1);
}

#[test]
fn reports_for_seats_or_sessions_that_do_not_exist_are_dropped() {
    let mut server = tick_server(2, 0);
    assert_eq!(report(&mut server, 5), Outcome { reply: 5, actions: vec![] });
    let out = server.handle_animation(AnimationMessage {
        player_id: 0,
        pk: String::from("secret"),
        game_id: 99,
        turn_id: 0,
    });
    assert_eq!(out, Outcome { reply: 0, actions: vec![] });
    assert!(!server.session(TICK_GAME).unwrap().players[0].animation_done);
}
