use openplay::basic::player::{Player, PlayerId};
use openplay::holdem::table::{BettingAction, GameError, GameEvent, GameStage, HoldemGame};
use openplay::poker::Deck;


fn deck_len(d: &Deck) -> usize {
    let mut c = d.clone();
    let mut n = 0;
    while c.deal().is_some() {
        n += 1;
    }
    n
}

fn player(id: u8) -> Player {
    Player { id: PlayerId::from_bytes(vec![id]), nickname: format!("p{}", id), avatar_url: None, is_bot: false }
}

fn total_chips(g: &HoldemGame) -> u64 {
    g.players.iter().map(|p| p.chips).sum::<u64>() + g.pot
}

fn table(n: u8) -> HoldemGame {
    let players = (1..=n).map(player).collect();
    let mut g = HoldemGame::new(players, 1000, 10, 20).unwrap();
    g.start_round();
    g
}

#[test]
fn blinds_are_posted_left_of_the_button() {
    let g = table(3);
    // button at 0: small blind at 1, big blind at 2
    assert_eq!(g.players[1].current_bet, 10);
    assert_eq!(g.players[2].current_bet, 20);
    assert_eq!(g.pot, 30);
    assert_eq!(g.current_bet, 20);
    assert_eq!(g.min_raise, 20);
    // the first to act is three left of the button: seat 0
    assert_eq!(g.current_player, 0);
    // the deck lost two cards per seat
    assert_eq!(deck_len(&g.deck), 52 - 6);
}

#[test]
fn start_round_events_in_order() {
    let players = vec![player(1), player(2)];
    let mut g = HoldemGame::new(players, 1000, 10, 20).unwrap();
    let ev = g.start_round();
    assert!(matches!(ev[0], GameEvent::GameStarted { dealer_position: 0, .. }));
    assert!(matches!(
        ev[1],
        GameEvent::BlindsPosted { small_blind_player: 1, small_blind_amount: 10, big_blind_player: 0, big_blind_amount: 20 }
    ));
    assert!(matches!(ev[2], GameEvent::CardsDealt { player: 0, .. }));
    assert!(matches!(ev[3], GameEvent::CardsDealt { player: 1, .. }));
    assert!(matches!(ev[4], GameEvent::StageChanged { stage: GameStage::PreFlop }));
    assert_eq!(ev.len(), 5);
}

#[test]
fn chips_are_conserved_by_betting() {
    let mut g = table(3);
    let before = total_chips(&g);
    let p = g.current_player;
    g.player_action(p, BettingAction::Raise(60)).unwrap();
    assert_eq!(total_chips(&g), before);
    let p = g.current_player;
    g.player_action(p, BettingAction::Call).unwrap();
    assert_eq!(total_chips(&g), before);
    let p = g.current_player;
    g.player_action(p, BettingAction::AllIn).unwrap();
    assert_eq!(total_chips(&g), before);
}

#[test]
fn showdown_pays_the_pot_without_emptying_it() {
    let mut g = table(2);
    let mut guard = 0;
    while g.current_stage != GameStage::Finished && guard < 20 {
        let p = g.current_player;
        let actions = g.get_valid_actions(p);
        let a = if actions.contains(&BettingAction::Check) { BettingAction::Check } else { BettingAction::Call };
        g.player_action(p, a).unwrap();
        guard += 1;
    }
    assert_eq!(g.current_stage, GameStage::Finished);
    assert_eq!(g.community_cards.len(), 5);
    let after: u64 = g.players.iter().map(|p| p.chips).sum();
    // the winner got the whole pot, and the pot still shows it
    assert_eq!(after, 2000);
    assert_eq!(g.pot, 40);
    assert!(g.players.iter().any(|p| p.chips == 1020));
    // the button moved on
    assert_eq!(g.dealer_position, 1);
}

#[test]
fn raise_below_minimum_is_refused() {
    let mut g = table(3);
    let p = g.current_player;
    let r = g.player_action(p, BettingAction::Raise(30));
    assert!(matches!(r, Err(GameError::InvalidBetAmount)));
    assert_eq!(g.current_player, p);
    assert_eq!(g.pot, 30);
}

#[test]
fn raise_beyond_stack_is_refused() {
    let mut g = table(3);
    let p = g.current_player;
    let r = g.player_action(p, BettingAction::Raise(5000));
    assert!(matches!(r, Err(GameError::InsufficientChips)));
}

#[test]
fn bet_after_a_bet_is_refused() {
    let mut g = table(3);
    let p = g.current_player;
    match g.player_action(p, BettingAction::Bet(40)) {
        Err(GameError::InvalidAction(msg)) => assert_eq!(msg, "Cannot bet, must raise"),
        other => panic!("unexpected {:?}", other),
    }
}

#[test]
fn check_facing_a_bet_is_refused() {
    let mut g = table(3);
    let p = g.current_player;
    match g.player_action(p, BettingAction::Check) {
        Err(GameError::InvalidAction(msg)) => assert_eq!(msg, "Cannot check, must call or raise"),
        other => panic!("unexpected {:?}", other),
    }
}

#[test]
fn folded_player_cannot_act() {
    let mut g = table(2);
    let p = g.current_player;
    g.player_action(p, BettingAction::Fold).unwrap();
    g.current_player = p;
    match g.player_action(p, BettingAction::Check) {
        Err(GameError::InvalidAction(msg)) => assert_eq!(msg, "Player is not active"),
        other => panic!("unexpected {:?}", other),
    }
}

#[test]
fn valid_actions_offered() {
    let g = table(3);
    let p = g.current_player;
    let a = g.get_valid_actions(p);
    assert_eq!(a, vec![BettingAction::Fold, BettingAction::Call, BettingAction::Raise(40), BettingAction::AllIn]);
    let other = (p + 1) % 3;
    assert!(g.get_valid_actions(other).is_empty());
}

#[test]
fn getters() {
    let g = table(2);
    assert_eq!(g.get_stage(), GameStage::PreFlop);
    assert_eq!(g.get_current_player(), g.current_player);
    assert_eq!(g.get_pot(), 30);
    assert!(g.get_community_cards().is_empty());
    assert!(g.get_player_state(1).is_some());
    assert!(g.get_player_state(2).is_none());
}

#[test]
fn broke_seats_sit_out() {
    let players = vec![player(1), player(2), player(3)];
    let mut g = HoldemGame::new(players, 1000, 10, 20).unwrap();
    g.players[2].chips = 0;
    g.start_round();
    assert!(!g.players[2].is_active);
    assert!(g.players[2].hand.is_empty());
    assert_eq!(deck_len(&g.deck), 52 - 4);
}

#[test]
fn every_offered_move_is_accepted() {
    let g = table(3);
    let p = g.current_player;
    let offered = g.get_valid_actions(p);
    assert_eq!(offered[0], BettingAction::Fold);
    for a in offered {
        let mut h = g.clone();
        assert!(h.player_action(p, a.clone()).is_ok(), "{:?} refused", a);
    }
}

#[test]
fn a_move_out_of_turn_changes_nothing() {
    let mut g = table(3);
    let other = (g.current_player + 1) % 3;
    let before = total_chips(&g);
    let pot = g.pot;
    assert!(matches!(g.player_action(other, BettingAction::AllIn), Err(GameError::NotPlayerTurn)));
    assert_eq!(total_chips(&g), before);
    assert_eq!(g.pot, pot);
}
