use openplay::basic::game::{GameEvent, SequencedGameUpdate};
use openplay::basic::message::{Data, DataType, TypedData};
use openplay::basic::user::{
    Action as UserAction, ActionData as UserActionData, ActionSource, GameActionData, User, UserId,
};
use openplay::doudizhu::game::{get_app, Action, DouDizhuGame, Role, Stage};

fn id_of(id: u8) -> UserId {
    let mut bytes = [0u8; 32];
    bytes[0] = id;
    UserId::from_bytes(bytes)
}

fn create_player(id: u8, name: &str) -> User {
    User { id: id_of(id), nickname: name.to_string(), avatar_url: None, is_bot: false }
}

fn create_update(player_id: u8, ref_version: u32) -> SequencedGameUpdate {
    let typed_data = TypedData {
        data_type: DataType { app: get_app(), kind: "action".to_string() },
        codec: "json".to_string(),
        data: Data(Vec::new()),
    };
    SequencedGameUpdate {
        seq: 1,
        event: GameEvent::Action(UserAction {
            source: ActionSource::User(id_of(player_id)),
            data: UserActionData::GameAction(GameActionData { message: typed_data, ref_version }),
        }),
    }
}

fn number_of(game: &DouDizhuGame, idx: usize, players: &[User]) -> u8 {
    let id = game.players[idx].player.id;
    if id == players[0].id {
        1
    } else if id == players[1].id {
        2
    } else {
        3
    }
}

#[test]
fn test_game_flow() {
    let p1 = create_player(1, "Alice");
    let p2 = create_player(2, "Bob");
    let p3 = create_player(3, "Charlie");
    let players = vec![p1.clone(), p2.clone(), p3.clone()];

    let mut game = DouDizhuGame::new(players.clone());
    game.start(players.clone());

    assert_eq!(game.stage, Stage::Bidding);
    assert_eq!(game.players.len(), 3);
    assert_eq!(game.players[0].hand.len(), 17);
    assert_eq!(game.hole_cards.len(), 3);
    assert_eq!(game.version, 1);

    let first_player_idx = game.current_turn;
    let first_id = number_of(&game, first_player_idx, &players);

    // First player bids 1
    let r = game.handle_action(create_update(first_id, game.version), players.clone(), Some(Action::Bid { score: 1 }));
    assert!(r.is_some());
    assert_eq!(game.highest_bid, 1);
    assert_eq!(game.landlord_idx, Some(first_player_idx));
    assert_eq!(game.version, 2);

    // Next player bids 2
    let next_idx = (first_player_idx + 1) % 3;
    let next_id = number_of(&game, next_idx, &players);
    game.handle_action(create_update(next_id, game.version), players.clone(), Some(Action::Bid { score: 2 }));
    assert_eq!(game.highest_bid, 2);
    assert_eq!(game.landlord_idx, Some(next_idx));
    assert_eq!(game.version, 3);

    // Third player passes
    let third_idx = (next_idx + 1) % 3;
    let third_id = number_of(&game, third_idx, &players);
    game.handle_action(create_update(third_id, game.version), players.clone(), Some(Action::Bid { score: 0 }));

    // The first player passes too: two passes after a bid end the bidding
    game.handle_action(create_update(first_id, game.version), players.clone(), Some(Action::Bid { score: 0 }));

    assert_eq!(game.stage, Stage::Playing);
    assert_eq!(game.landlord_idx, Some(next_idx));
    assert_eq!(game.players[next_idx].role, Role::Landlord);
    assert_eq!(game.players[next_idx].hand.len(), 20);
    assert_eq!(game.current_turn, next_idx);
}
