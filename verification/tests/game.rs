use rust_esp_starter::game::{GameState, COLD_PRESENCE, FULL_HEALTH, MAX_MESSAGES};

#[test]
fn game_starts_with_three_messages() {
    let game = GameState::new();
    assert_eq!(game.player_health(), 100);
    assert_eq!(game.player_health(), FULL_HEALTH);
    assert_eq!(game.player_level(), 1);
    assert_eq!(game.current_room(), 0);
    assert!(game.is_dirty());
    assert_eq!(
        game.messages(),
        &vec![
            "You enter the ancient crypt...",
            "The door slams shut behind you!",
            "You hear strange noises...",
        ]
    );
}

#[test]
fn game_keeps_the_five_newest_messages() {
    let mut game = GameState::new();
    game.mark_painted();
    assert!(!game.is_dirty());
    game.add_message("four");
    assert!(game.is_dirty());
    game.add_message("five");
    assert_eq!(game.messages().len(), 5);
    game.add_message("six");
    assert_eq!(game.messages().len(), MAX_MESSAGES);
    assert_eq!(
        game.messages(),
        &vec!["The door slams shut behind you!", "You hear strange noises...", "four", "five", "six"]
    );
}

#[test]
fn a_turn_costs_one_point_of_health() {
    let mut game = GameState::new();
    game.mark_painted();
    game.simulate_turn();
    assert_eq!(game.player_health(), 99);
    assert!(game.is_dirty());
    assert_eq!(game.messages().len(), 3);
}

#[test]
fn every_twentieth_point_brings_a_message() {
    let mut game = GameState::new();
    for _ in 0..20 {
        game.simulate_turn();
    }
    assert_eq!(game.player_health(), 80);
    assert_eq!(game.messages().len(), 4);
    assert_eq!(game.messages()[3], COLD_PRESENCE);
    assert_eq!(COLD_PRESENCE, "You feel a cold presence...");
}

#[test]
fn health_stops_at_zero() {
    let mut game = GameState::new();
    for _ in 0..100 {
        game.simulate_turn();
    }
    assert_eq!(game.player_health(), 0);
    game.mark_painted();
    game.simulate_turn();
    assert_eq!(game.player_health(), 0);
    assert!(game.is_dirty());
    assert_eq!(game.messages().len(), 5);
    assert_eq!(game.messages()[4], COLD_PRESENCE);
}
