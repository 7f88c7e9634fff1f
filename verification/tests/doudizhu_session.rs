use openplay::basic::game::Interval;
use openplay::basic::game::{GameCommand, GameEvent, Id, SequencedGameUpdate, TimeExpired};
use openplay::basic::message::{App, Data, DataType, TypedData};
use openplay::basic::room::RoomView;
use openplay::basic::user::{User, UserId};
use openplay::doudizhu::bot::SimpleBotLogic;
use openplay::doudizhu::game::{Action, DouDizhuGame, Stage, APP_ID};
use openplay::doudizhu::pattern::{DouDizhuRank, Pattern};
use openplay::doudizhu::game::LastPlay;
use openplay::doudizhu::session::ConfigError;
use openplay::poker::{Card, Rank, Suit};

fn user(n: u8) -> User {
    let mut b = [0u8; 32];
    b[0] = n;
    User { id: UserId::from_bytes(b), nickname: format!("u{}", n), avatar_url: None, is_bot: false }
}

fn s(rank: Rank) -> Card {
    Card::new_natural(Suit::Spades, rank)
}

fn started() -> (DouDizhuGame, Vec<User>) {
    let users = vec![user(1), user(2), user(3)];
    let mut g = DouDizhuGame::new(users.clone());
    let r = g.handle_action(SequencedGameUpdate { event: GameEvent::GameStart, seq: 0 }, users.clone(), None);
    assert!(r.is_some());
    (g, users)
}

#[test]
fn game_start_deals_and_starts_a_timer() {
    let (g, _) = started();
    assert_eq!(g.stage, Stage::Bidding);
    assert_eq!(g.version, 1);
    assert!(g.timer_id.is_some());
    assert!(g.turn_deadline.is_some());
    let total: usize = g.players.iter().map(|p| p.hand.len()).sum::<usize>() + g.hole_cards.len();
    assert_eq!(total, 54);
    for p in &g.players {
        assert_eq!(p.hand_count, 17);
    }
}

#[test]
fn game_start_needs_three_players() {
    let users = vec![user(1), user(2)];
    let mut g = DouDizhuGame::new(users.clone());
    let r = g.handle_action(SequencedGameUpdate { event: GameEvent::GameStart, seq: 0 }, users, None);
    assert!(r.is_none());
    assert_eq!(g.stage, Stage::Setup);
}

#[test]
fn move_out_of_turn_changes_nothing() {
    let (mut g, users) = started();
    let other = (g.current_turn + 1) % 3;
    let id = g.players[other].player.id;
    let cmds = g.handle_player_move(&id, g.version, Action::Bid { score: 1 });
    assert!(cmds.is_empty());
    assert_eq!(g.version, 1);
    assert_eq!(g.highest_bid, 0);
    let _ = users;
}

#[test]
fn accepted_move_bumps_version_and_restarts_timer() {
    let (mut g, _) = started();
    let old_timer = g.timer_id.clone().unwrap();
    let id = g.players[g.current_turn].player.id;
    let cmds = g.handle_player_move(&id, 1, Action::Bid { score: 2 });
    assert_eq!(g.version, 2);
    assert_eq!(g.highest_bid, 2);
    assert_eq!(cmds.len(), 2);
    assert!(matches!(&cmds[0], GameCommand::CancelTimer { id, .. } if *id == old_timer));
    assert!(matches!(&cmds[1], GameCommand::CreateTimer { duration_secs: 30, .. }));
}

#[test]
fn bid_three_ends_bidding() {
    let (mut g, _) = started();
    let turn = g.current_turn;
    let id = g.players[turn].player.id;
    g.handle_player_move(&id, 1, Action::Bid { score: 3 });
    assert_eq!(g.stage, Stage::Playing);
    assert_eq!(g.landlord_idx, Some(turn));
    assert_eq!(g.players[turn].hand.len(), 20);
    assert_eq!(g.current_turn, turn);
}

#[test]
fn all_pass_redeals() {
    let (mut g, _) = started();
    for _ in 0..3 {
        let id = g.players[g.current_turn].player.id;
        let v = g.version;
        g.handle_player_move(&id, v, Action::Bid { score: 0 });
    }
    assert_eq!(g.stage, Stage::Bidding);
    assert_eq!(g.highest_bid, 0);
    assert_eq!(g.version, 4);
    for p in &g.players {
        assert_eq!(p.hand.len(), 17);
        assert!(!p.has_passed);
    }
}

#[test]
fn default_action_in_bidding_passes() {
    let (g, _) = started();
    let id = g.players[g.current_turn].player.id;
    let d = g.default_action(&id).unwrap();
    assert!(matches!(d.action, Action::Bid { score: 0 }));
    assert_eq!(d.ref_version, g.version);
    let other = g.players[(g.current_turn + 1) % 3].player.id;
    assert!(g.default_action(&other).is_none());
}

#[test]
fn timer_expiry_makes_the_default_move() {
    let (mut g, _) = started();
    let timer = g.timer_id.clone().unwrap();
    let turn = g.current_turn;
    let cmds = g.handle_timer_expired(&TimeExpired { timer_id: timer });
    assert!(!cmds.is_empty());
    assert!(g.players[turn].has_passed);
    assert_eq!(g.consecutive_passes, 1);
    assert_eq!(g.current_turn, (turn + 1) % 3);
}

#[test]
fn stale_timer_is_ignored() {
    let (mut g, _) = started();
    let cmds = g.handle_timer_expired(&TimeExpired { timer_id: Id("other".to_string()) });
    assert!(cmds.is_empty());
    assert_eq!(g.version, 1);
}

#[test]
fn masked_view_hides_other_hands() {
    let (g, _) = started();
    let m = g.masked_view(Some(1));
    assert_eq!(m.players[1].hand.len(), 17);
    assert!(m.players[0].hand.is_empty());
    assert_eq!(m.players[0].hand_count, 17);
    assert!(m.players[2].hand.is_empty());
    assert!(m.hole_cards.is_empty());
    let o = g.masked_view(None);
    assert!(o.players.iter().all(|p| p.hand.is_empty()));
}

#[test]
fn views_are_per_seat_and_neutral() {
    let (g, _) = started();
    let v = g.views();
    assert_eq!(v.len(), 4);
    for (i, (view, _)) in v.iter().take(3).enumerate() {
        match view {
            RoomView::Position(p) => assert_eq!(p.as_str(), i.to_string()),
            _ => panic!("seat view expected"),
        }
    }
    assert!(matches!(v[3].0, RoomView::Neutral));
    let fresh = DouDizhuGame::new(vec![user(1), user(2), user(3)]);
    assert!(fresh.current_view().is_none());
    assert!(g.current_view().is_some());
}

#[test]
fn config_type_is_checked() {
    let (mut g, _) = started();
    let wrong = TypedData {
        data_type: DataType { app: App { id: "other".to_string(), revision: 1 }, kind: "config".to_string() },
        codec: "json".to_string(),
        data: Data(Vec::new()),
    };
    assert_eq!(g.apply_config(&wrong, None), Err(ConfigError::InvalidType));
    let right = TypedData {
        data_type: DataType { app: App { id: APP_ID.to_string(), revision: 1 }, kind: "config".to_string() },
        codec: "json".to_string(),
        data: Data(Vec::new()),
    };
    assert_eq!(g.apply_config(&right, None), Err(ConfigError::InvalidFormat));
    let cfg = openplay::doudizhu::game::DouDizhuConfig { turn_timeout_seconds: 5 };
    assert_eq!(g.apply_config(&right, Some(cfg)), Ok(()));
    assert_eq!(g.config.turn_timeout_seconds, 5);
}

#[test]
fn meta_describes_the_game() {
    let (g, _) = started();
    let m = g.meta();
    assert_eq!(m.app.id, "doudizhu");
    assert_eq!(m.description, "Classic Chinese card game for 3 players");
}

#[test]
fn bot_opens_bidding_then_passes() {
    let (mut g, _) = started();
    let id = g.players[g.current_turn].player.id;
    assert!(matches!(SimpleBotLogic::decide(&id, &g), Some(Action::Bid { score: 1 })));
    g.handle_player_move(&id, 1, Action::Bid { score: 1 });
    let next = g.players[g.current_turn].player.id;
    assert!(matches!(SimpleBotLogic::decide(&next, &g), Some(Action::Bid { score: 0 })));
    assert!(SimpleBotLogic::decide(&id, &g).is_none());
}

#[test]
fn bot_follows_a_single_with_the_lowest_higher_card() {
    let users = vec![user(1), user(2), user(3)];
    let mut g = DouDizhuGame::new(users.clone());
    g.stage = Stage::Playing;
    g.current_turn = 1;
    g.players[1].hand = vec![s(Rank::Two), s(Rank::King), s(Rank::Nine), s(Rank::Four)];
    g.last_play = Some(LastPlay { player_idx: 0, cards: vec![s(Rank::Eight)], pattern: Pattern::Single(DouDizhuRank::Eight) });
    match SimpleBotLogic::decide(&users[1].id, &g) {
        Some(Action::Play { cards }) => assert_eq!(cards, vec![s(Rank::Nine)]),
        other => panic!("unexpected {:?}", other),
    }
    g.last_play = Some(LastPlay { player_idx: 0, cards: vec![s(Rank::Two)], pattern: Pattern::Single(DouDizhuRank::Two) });
    assert!(matches!(SimpleBotLogic::decide(&users[1].id, &g), Some(Action::Pass)));
    // a free turn leads the lowest card
    g.last_play = None;
    match SimpleBotLogic::decide(&users[1].id, &g) {
        Some(Action::Play { cards }) => assert_eq!(cards, vec![s(Rank::Four)]),
        other => panic!("unexpected {:?}", other),
    }
}

#[test]
fn playing_out_the_hand_wins() {
    let users = vec![user(1), user(2), user(3)];
    let mut g = DouDizhuGame::new(users.clone());
    g.stage = Stage::Playing;
    g.version = 1;
    g.timer_id = Some(Id("t".to_string()));
    g.players[0].hand = vec![s(Rank::Three)];
    let cmds = g.handle_player_move(&users[0].id, 1, Action::Play { cards: vec![s(Rank::Three)] });
    assert_eq!(g.stage, Stage::Finished);
    assert_eq!(g.winner, Some(0));
    assert!(g.timer_id.is_none());
    assert!(matches!(cmds.last(), Some(GameCommand::GameOver)));
    assert!(matches!(&cmds[0], GameCommand::CancelTimer { .. }));
}

#[test]
fn events_the_game_cannot_take_change_nothing() {
    let users: Vec<User> = (1..=3u8)
        .map(|i| User { id: UserId::from_bytes([i; 32]), nickname: format!("p{}", i), avatar_url: None, is_bot: false })
        .collect();
    let mut g = DouDizhuGame::new(users.clone());
    // a start with three users deals and starts the bidding
    let r = g.handle_event(SequencedGameUpdate { event: GameEvent::GameStart, seq: 0 }, users.clone(), None);
    assert!(r.is_some());
    assert_eq!(g.stage, Stage::Bidding);
    // a game that can take no more moves takes nothing
    let mut full = g.clone();
    full.version = u32::MAX;
    let before = full.version;
    let r = full.handle_event(
        SequencedGameUpdate { event: GameEvent::TimerExpired(TimeExpired { timer_id: Id("x".to_string()) }), seq: 0 },
        users.clone(),
        None,
    );
    assert!(r.is_none());
    assert_eq!(full.version, before);
    // an interval changes nothing
    let v = g.version;
    assert!(g.handle_event(SequencedGameUpdate { event: GameEvent::Interval(Interval { interval_id: Id("i".to_string()) }), seq: 0 }, users, None).is_none());
    assert_eq!(g.version, v);
}
