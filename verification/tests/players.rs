use game_coordinator::messages::{NewPlayer, PlayerJoin, Turn};
use game_coordinator::models::{Mutation, Player};
use game_coordinator::server::GameServer;
use game_coordinator::session::{contains_card, copy_ids, offer_from, without_origin};

#[test]
fn a_seated_participant_starts_in_the_game_with_nothing_played() {
    let p = Player::with_draws(
        3,
        17,
        String::from("ann"),
        2,
        (5, 6),
        false,
        true,
        String::from("0123456789"),
        1,
    );
    assert_eq!(p.id, 3);
    assert_eq!(p.game_id, 17);
    assert_eq!(p.username, "ann");
    assert_eq!(p.private_key, "0123456789");
    assert_eq!(p.character_type, 2);
    assert_eq!(p.pos, (5, 6, 1));
    assert!(!p.is_ai);
    assert!(p.has_addr);
    assert!(p.active);
    assert_eq!(p.previous_choices, Vec::<Mutation>::new());
    assert_eq!(p.card_options, None);
    assert!(!p.animation_done);
    assert!(!p.has_death_voted);
    assert_eq!(p.been_death_voted_for, 0);
}

#[test]
fn the_public_record_leaves_the_secret_out() {
    let p = Player::with_draws(
        3,
        17,
        String::from("ann"),
        2,
        (5, 6),
        false,
        true,
        String::from("0123456789"),
        1,
    );
    assert_eq!(
        PlayerJoin::from(&p),
        PlayerJoin {
            user_id: 3,
            username: String::from("ann"),
            x: 5,
            y: 6,
            char_type: 2,
            start_orientation: 1,
        }
    );
}

#[test]
fn a_new_participant_draws_a_secret_and_a_facing() {
    let mut rng = rand::thread_rng();
    let mut secrets = std::collections::HashSet::new();
    let mut facings = std::collections::HashSet::new();
    for n in 0..200 {
        let p = Player::new(n, 17, String::from("ann"), 2, (5, 6), true, false, &mut rng);
        assert_eq!(p.private_key.len(), 10);
        assert!(p.private_key.chars().all(|c| c.is_ascii_alphanumeric()));
        assert!(p.pos.2 < 4);
        assert_eq!((p.pos.0, p.pos.1), (5, 6));
        assert_eq!((p.id, p.game_id, p.character_type), (n, 17, 2));
        assert_eq!(p.username, "ann");
        assert!(p.is_ai && !p.has_addr && p.active);
        assert!(p.previous_choices.is_empty() && p.card_options.is_none());
        secrets.insert(p.private_key);
        facings.insert(p.pos.2);
    }
    assert!(secrets.len() > 190);
    assert_eq!(facings.len(), 4);
}

#[test]
fn new_sessions_get_squares_and_numbers_of_their_own() {
    let mut squares = std::collections::HashSet::new();
    let mut numbers = std::collections::HashSet::new();
    for _ in 0..20 {
        let mut server = GameServer::new();
        server.handle_connect(game_coordinator::messages::Connect {
            username: String::from("p"),
            character_type: 0,
            has_addr: true,
            game_id: None,
        });
        let id = server.session_ids()[0];
        numbers.insert(id);
        let game = server.session(id).unwrap();
        squares.insert((game.players[0].pos.0, game.players[0].pos.1));
        for pos in game.available_pos.iter() {
            squares.insert(*pos);
        }
    }
    assert!(numbers.len() > 15);
    assert!(squares.len() > 50);
}

#[test]
fn plain_records_hold_what_they_are_given() {
    let np = NewPlayer { username: String::from("ann"), character_type: 2 };
    assert_eq!(np.username, "ann");
    assert_eq!(np.character_type, 2);
    assert_eq!(Turn { id: 4 }.id, 4);
}

#[test]
fn small_helpers_do_what_they_say() {
    assert!(contains_card(&vec![1, 2, 3], 2));
    assert!(!contains_card(&vec![1, 2, 3], 4));
    assert!(!contains_card(&vec![], 0));
    assert_eq!(copy_ids(&vec![4, 2, 4]), vec![4, 2, 4]);
    assert_eq!(offer_from((9, 8, 7)), vec![9, 8, 7]);
    assert_eq!(without_origin(vec![0, 1, 2], Some(1)), vec![0, 2]);
    assert_eq!(without_origin(vec![0, 1, 2], Some(5)), vec![0, 1, 2]);
    assert_eq!(without_origin(vec![0, 1, 2], None), vec![0, 1, 2]);
}
