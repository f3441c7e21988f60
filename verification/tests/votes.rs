use game_coordinator::actions::{Action, Notice, Outcome};
use game_coordinator::messages::{
    Connect, CreateTurnMessage, PlayerDied, PollPlayerDeathMessage,
};
use game_coordinator::server::{GameServer, SeatDraws};
use game_coordinator::session::TurnDraws;

const VOTES_GAME: usize = 8;

fn votes_draws() -> SeatDraws {
    SeatDraws {
        session_key: VOTES_GAME,
        positions: vec![
            (0, 2),
            (1, 2),
            (2, 2),
            (3, 2),
            (4, 2),
            (5, 2),
            (6, 2),
            (7, 2),
            (8, 2),
            (9, 2),
        ],
        private_key: String::from("secret"),
        facing: 1,
        card: 0,
    }
}

// A session with `persons` persons in seats 0.. and then `bots` computer
// players.
fn votes_server(persons: usize, bots: usize) -> GameServer {
    let mut server = GameServer::new();
    for _ in 0..persons {
        server.connect_with(
            Connect {
                username: String::from("p"),
                character_type: 0,
                has_addr: true,
                game_id: None,
            },
            votes_draws(),
        );
    }
    for _ in 0..bots {
        server.connect_with(
            Connect {
                username: String::from("b"),
                character_type: 0,
                has_addr: false,
                game_id: Some(VOTES_GAME),
            },
            votes_draws(),
        );
    }
    server
}

fn vote(voter: usize, target: usize) -> PollPlayerDeathMessage {
    PollPlayerDeathMessage {
        other_id: target,
        self_id: voter,
        pk: String::from("secret"),
        game_id: VOTES_GAME,
        turn_id: 0,
    }
}

fn died(target: usize, to: Vec<usize>) -> Action {
    Action::Broadcast {
        game_id: VOTES_GAME,
        player_ids: to,
        notice: Notice::Died(PlayerDied { user_id: target }),
    }
}

#[test]
fn half_of_the_persons_in_the_game_eliminate() {
    let mut server = votes_server(4, 0);
    let first = server.handle_poll_player_death(vote(0, 3));
    assert_eq!(first, Outcome { reply: 0, actions: vec![] });
    {
        let game = server.session(VOTES_GAME).unwrap();
        assert!(game.players[0].has_death_voted);
        assert_eq!(game.players[3].been_death_voted_for, 1);
        assert!(game.players[3].active);
    }
    let second = server.handle_poll_player_death(vote(1, 3));
    assert_eq!(second, Outcome { reply: 1, actions: vec![died(3, vec![0, 1, 2, 3])] });
    let game = server.session(VOTES_GAME).unwrap();
    assert_eq!(game.players[3].been_death_voted_for, 2);
    assert!(!game.players[3].active);
}

#[test]
fn the_quorum_is_rounded_up() {
    let mut server = votes_server(5, 0);
    server.handle_poll_player_death(vote(0, 4));
    server.handle_poll_player_death(vote(1, 4));
    assert!(server.session(VOTES_GAME).unwrap().players[4].active);
    let third = server.handle_poll_player_death(vote(2, 4));
    assert_eq!(third.actions, vec![died(4, vec![0, 1, 2, 3, 4])]);
    assert!(!server.session(VOTES_GAME).unwrap().players[4].active);
}

#[test]
fn computer_players_do_not_count_toward_the_quorum() {
    let mut server = votes_server(2, 6);
    let out = server.handle_poll_player_death(vote(0, 5));
    assert_eq!(out.actions, vec![died(5, vec![0, 1])]);
    assert!(!server.session(VOTES_GAME).unwrap().players[5].active);
}

#[test]
fn a_second_vote_in_the_same_turn_is_ignored() {
    let mut server = votes_server(6, 0);
    server.handle_poll_player_death(vote(0, 5));
    let again = server.handle_poll_player_death(vote(0, 5));
    assert_eq!(again, Outcome { reply: 0, actions: vec![] });
    let elsewhere = server.handle_poll_player_death(vote(0, 4));
    assert_eq!(elsewhere, Outcome { reply: 0, actions: vec![] });
    let game = server.session(VOTES_GAME).unwrap();
    assert_eq!(game.players[5].been_death_voted_for, 1);
    assert_eq!(game.players[4].been_death_voted_for, 0);
}

#[test]
fn a_vote_with_a_wrong_secret_is_ignored() {
    let mut server = votes_server(2, 0);
    let mut v = vote(0, 1);
    v.pk = String::from("guess");
    let out = server.handle_poll_player_death(v);
    assert_eq!(out, Outcome { reply: 0, actions: vec![] });
    let game = server.session(VOTES_GAME).unwrap();
    assert!(!game.players[0].has_death_voted);
    assert_eq!(game.players[1].been_death_voted_for, 0);
    assert!(game.players[1].active);
}

#[test]
fn a_vote_against_someone_out_of_the_game_is_ignored() {
    let mut server = votes_server(2, 0);
    server.handle_poll_player_death(vote(0, 1));
    assert!(!server.session(VOTES_GAME).unwrap().players[1].active);
    let out = server.handle_poll_player_death(vote(1, 1));
    assert_eq!(out, Outcome { reply: 1, actions: vec![] });
    let game = server.session(VOTES_GAME).unwrap();
    assert!(!game.players[1].has_death_voted);
    assert_eq!(game.players[1].been_death_voted_for, 1);
}

#[test]
fn votes_for_seats_or_sessions_that_do_not_exist_are_dropped() {
    let mut server = votes_server(2, 0);
    assert_eq!(
        server.handle_poll_player_death(vote(0, 2)),
        Outcome { reply: 0, actions: vec![] }
    );
    assert_eq!(
        server.handle_poll_player_death(vote(7, 0)),
        Outcome { reply: 7, actions: vec![] }
    );
    let mut v = vote(0, 1);
    v.game_id = 99;
    assert_eq!(server.handle_poll_player_death(v), Outcome { reply: 0, actions: vec![] });
    let game = server.session(VOTES_GAME).unwrap();
    assert!(!game.players[0].has_death_voted);
    assert!(game.players[1].active);
}

#[test]
fn an_eliminated_participant_stays_out_and_votes_start_anew_each_turn() {
    let mut server = votes_server(4, 0);
    server.handle_poll_player_death(vote(0, 3));
    server.handle_poll_player_death(vote(1, 3));
    server.handle_poll_player_death(vote(2, 1));
    let draws = TurnDraws {
        characters: vec![0; 10],
        picks: vec![0; 4],
        late_cards: vec![0; 4],
        next_cards: vec![0; 4],
    };
    let advance = CreateTurnMessage { game_id: VOTES_GAME, check_turn_id: None };
    server.create_turn_with(advance, &draws);
    server.create_turn_with(advance, &draws);
    let game = server.session(VOTES_GAME).unwrap();
    assert_eq!(game.turn_index, 1);
    assert!(!game.players[3].active);
    for p in game.players.iter() {
        assert!(!p.has_death_voted);
        assert_eq!(p.been_death_voted_for, 0);
    }
    // Three persons are left in the game: two votes are needed again.
    server.handle_poll_player_death(vote(0, 2));
    assert!(server.session(VOTES_GAME).unwrap().players[2].active);
    let out = server.handle_poll_player_death(vote(1, 2));
    assert_eq!(out.actions, vec![died(2, vec![0, 1, 2, 3])]);
    assert!(!server.session(VOTES_GAME).unwrap().players[3].active);
}
