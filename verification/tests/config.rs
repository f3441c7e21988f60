use game_coordinator::config::GameConfig;

#[test]
fn default_config_has_38_cards_and_no_actions() {
    let gc = GameConfig::default();
    assert_eq!(gc.cards, 38);
    assert_eq!(gc.actions, 0);
}
