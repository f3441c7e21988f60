use game_coordinator::random::total_weight;
use game_coordinator::server::{card_table, GameServer, TableError};

#[test]
fn the_card_table_has_38_weights() {
    let table = card_table();
    assert_eq!(table.len(), 38);
    assert_eq!(table[0], 150);
    assert_eq!(table[3], 100);
    assert_eq!(table[7], 0);
    assert_eq!(table[8], 0);
    assert_eq!(table[16], 25);
    assert_eq!(table[22], 23);
    assert_eq!(table[33], 12);
    assert_eq!(table[37], 12);
    assert_eq!(table.iter().sum::<u32>(), 1594);
}

#[test]
fn cards_are_drawn_as_often_as_their_weights_say() {
    let mut server = GameServer::new();
    let table = card_table();
    let total: u32 = table.iter().sum();
    let trials = 400_000usize;
    let mut seen = vec![0usize; table.len()];
    for _ in 0..trials {
        let card = server.draw_card() as usize;
        assert!(card < table.len());
        seen[card] += 1;
    }
    for (card, count) in seen.iter().enumerate() {
        let expected = table[card] as f64 / total as f64;
        let observed = *count as f64 / trials as f64;
        assert!(
            (observed - expected).abs() < 0.005,
            "card {}: expected {}, observed {}",
            card,
            expected,
            observed
        );
    }
}

#[test]
fn a_card_without_weight_is_never_drawn() {
    let mut server = GameServer::new();
    for _ in 0..200_000 {
        let card = server.draw_card();
        assert!(card != 7 && card != 8);
        assert!(card < 38);
    }
}

#[test]
fn drawing_a_card_leaves_the_sessions_alone() {
    let mut server = GameServer::new();
    server.draw_card();
    assert_eq!(server.session_count(), 0);
    assert_eq!(server.session_ids(), Vec::<usize>::new());
    assert_eq!(server.find_open(), None);
}

#[test]
fn a_table_with_one_weighted_card_always_gives_that_card() {
    let mut server = GameServer::with_weights(vec![0, 0, 7, 0]).unwrap();
    for _ in 0..1000 {
        assert_eq!(server.draw_card(), 2);
    }
    let mut last = GameServer::with_weights(vec![0, 0, 0, u32::MAX]).unwrap();
    for _ in 0..1000 {
        assert_eq!(last.draw_card(), 3);
    }
}

#[test]
fn a_custom_table_is_drawn_from_by_weight() {
    let mut server = GameServer::with_weights(vec![1, 0, 3]).unwrap();
    assert_eq!(server.config().cards, 3);
    assert_eq!(server.config().actions, 0);
    let mut seen = [0usize; 3];
    for _ in 0..100_000 {
        seen[server.draw_card() as usize] += 1;
    }
    assert_eq!(seen[1], 0);
    assert!((seen[0] as f64 / 100_000.0 - 0.25).abs() < 0.01);
    assert!((seen[2] as f64 / 100_000.0 - 0.75).abs() < 0.01);
}

#[test]
fn tables_that_cannot_be_used_are_refused() {
    assert_eq!(GameServer::with_weights(vec![]).err(), Some(TableError::NoCards));
    assert_eq!(GameServer::with_weights(vec![1; 257]).err(), Some(TableError::TooManyCards));
    assert_eq!(
        GameServer::with_weights(vec![u32::MAX, 1]).err(),
        Some(TableError::TotalTooLarge)
    );
    assert_eq!(GameServer::with_weights(vec![0, 0, 0]).err(), Some(TableError::AllWeightsZero));
    assert_eq!(GameServer::with_weights(vec![0; 257]).err(), Some(TableError::TooManyCards));
    assert!(GameServer::with_weights(vec![1; 256]).is_ok());
    assert!(GameServer::with_weights(vec![u32::MAX, 0]).is_ok());
}

#[test]
fn totals_are_added_up_unless_they_overflow() {
    assert_eq!(total_weight(&vec![]), Some(0));
    assert_eq!(total_weight(&vec![1, 2, 3]), Some(6));
    assert_eq!(total_weight(&vec![u32::MAX - 1, 1]), Some(u32::MAX));
    assert_eq!(total_weight(&vec![u32::MAX, 1, 0]), None);
    assert_eq!(total_weight(&card_table()), Some(1594));
}

#[test]
fn the_default_coordinator_knows_its_38_cards() {
    let server = GameServer::new();
    assert_eq!(server.config().cards, 38);
    assert_eq!(server.config().actions, 0);
}
