use openplay::basic::player::{Player, PlayerId};
use openplay::holdem::table::{BettingAction, GameError, GameStage, HoldemGame};

fn create_test_player(id: u8, nickname: &str) -> Player {
    Player {
        id: PlayerId::from_bytes(vec![id]),
        nickname: nickname.to_string(),
        avatar_url: None,
        is_bot: false,
    }
}

#[test]
fn test_game_creation() {
    let players = vec![
        create_test_player(1, "Alice"),
        create_test_player(2, "Bob"),
        create_test_player(3, "Charlie"),
    ];

    let game = HoldemGame::new(players, 1000, 10, 20);
    assert!(game.is_ok());

    let game = game.unwrap();
    assert_eq!(game.players.len(), 3);
    assert_eq!(game.small_blind, 10);
    assert_eq!(game.big_blind, 20);
}

#[test]
fn test_not_enough_players() {
    let players = vec![create_test_player(1, "Alice")];
    let game = HoldemGame::new(players, 1000, 10, 20);
    assert!(matches!(game, Err(GameError::NotEnoughPlayers)));
}

#[test]
fn test_start_round() {
    let players = vec![
        create_test_player(1, "Alice"),
        create_test_player(2, "Bob"),
        create_test_player(3, "Charlie"),
    ];

    let mut game = HoldemGame::new(players, 1000, 10, 20).unwrap();
    let events = game.start_round();

    assert!(!events.is_empty());
    assert!(game.pot > 0);
    assert_eq!(game.players[0].hand.len(), 2);
    assert_eq!(game.players[1].hand.len(), 2);
    assert_eq!(game.players[2].hand.len(), 2);
    assert_eq!(game.current_stage, GameStage::PreFlop);
}

#[test]
fn test_full_game_flow() {
    let players = vec![create_test_player(1, "Alice"), create_test_player(2, "Bob")];

    let mut game = HoldemGame::new(players, 1000, 10, 20).unwrap();
    game.start_round();

    println!("Dealer position: {}", game.dealer_position);
    println!("Current stage: {:?}", game.current_stage);
    println!("Current player: {}", game.current_player);
    println!("Pot: {}", game.pot);
    println!("Current bet: {}", game.current_bet);

    let current = game.current_player;
    println!("Valid actions: {:?}", game.get_valid_actions(current));

    let result = game.player_action(current, BettingAction::Call);
    assert!(result.is_ok());
    println!("Player {} calls, pot {}", current, game.pot);

    if game.current_stage == GameStage::Flop {
        println!("Community cards: {} cards", game.community_cards.len());
        let current = game.current_player;
        let _ = game.player_action(current, BettingAction::Check);
        if game.current_stage == GameStage::Flop {
            let current = game.current_player;
            let _ = game.player_action(current, BettingAction::Check);
        }
    }

    if game.current_stage == GameStage::Turn {
        let current = game.current_player;
        let _ = game.player_action(current, BettingAction::Check);
        if game.current_stage == GameStage::Turn {
            let current = game.current_player;
            let _ = game.player_action(current, BettingAction::Check);
        }
    }

    if game.current_stage == GameStage::River {
        let current = game.current_player;
        let _ = game.player_action(current, BettingAction::Check);
        if game.current_stage == GameStage::River {
            let current = game.current_player;
            let _ = game.player_action(current, BettingAction::Check);
        }
    }

    println!("Final stage: {:?}", game.current_stage);
    println!("Player 0 chips: {}", game.players[0].chips);
    println!("Player 1 chips: {}", game.players[1].chips);
}

#[test]
fn test_player_fold() {
    let players = vec![create_test_player(1, "Alice"), create_test_player(2, "Bob")];

    let mut game = HoldemGame::new(players, 1000, 10, 20).unwrap();
    game.start_round();

    let current = game.current_player;
    let result = game.player_action(current, BettingAction::Fold);
    assert!(result.is_ok());
    assert!(!game.players[current].is_active);
}

#[test]
fn test_invalid_action_not_turn() {
    let players = vec![create_test_player(1, "Alice"), create_test_player(2, "Bob")];

    let mut game = HoldemGame::new(players, 1000, 10, 20).unwrap();
    game.start_round();

    let wrong_player = (game.current_player + 1) % game.players.len();
    let result = game.player_action(wrong_player, BettingAction::Check);
    assert!(matches!(result, Err(GameError::NotPlayerTurn)));
}

#[test]
fn test_betting_and_raising() {
    let players = vec![
        create_test_player(1, "Alice"),
        create_test_player(2, "Bob"),
        create_test_player(3, "Charlie"),
    ];

    let mut game = HoldemGame::new(players, 1000, 10, 20).unwrap();
    game.start_round();

    println!("Initial pot: {}", game.pot);
    println!("Current player: {}", game.current_player);

    let current = game.current_player;
    let result = game.player_action(current, BettingAction::Raise(40));
    assert!(result.is_ok());
    assert_eq!(game.current_bet, 40);

    println!("After raise - pot: {}, current bet: {}", game.pot, game.current_bet);
}
