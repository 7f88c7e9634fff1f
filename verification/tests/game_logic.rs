use openplay::basic::game::{GameEvent, GameMeta, SequencedGameUpdate};
use openplay::basic::message::{App, Data, DataType, TypedData};
use openplay::basic::room::{
    Room, RoomContext, RoomInfo, RoomPlayerPosition, RoomPlayerState,
};
use openplay::basic::user::{
    Action as UserAction, ActionData as UserActionData, ActionSource, GameActionData, User, UserId,
};
use openplay::doudizhu::game::{get_app, Action, DouDizhuGame, Role, Stage};
use openplay::poker::{Card, NaturalCard, Rank, Suit};

fn make_player(id: UserId, nickname: &str) -> User {
    User { id, nickname: nickname.to_string(), avatar_url: None, is_bot: false }
}

fn make_action_update(player_id: &UserId, ref_version: u32) -> SequencedGameUpdate {
    let typed_data = TypedData {
        data_type: DataType { app: get_app(), kind: "action".to_string() },
        codec: "json".to_string(),
        data: Data(Vec::new()),
    };
    let game_action_data = GameActionData { message: typed_data, ref_version };
    SequencedGameUpdate {
        seq: 1,
        event: GameEvent::Action(UserAction {
            source: ActionSource::User(*player_id),
            data: UserActionData::GameAction(game_action_data),
        }),
    }
}

fn card(rank: Rank) -> Card {
    Card::NaturalCard(NaturalCard { rank, suit: Suit::Spades })
}

/// A room with the given players seated at positions 0, 1, 2.
fn make_room_context(players: &[User]) -> RoomContext {
    let owner = players[0].clone();
    let room_info = RoomInfo {
        title: "Test Room".to_string(),
        description: None,
        id: "test".to_string(),
        owner: owner.id,
        endpoint: "test://".to_string(),
        game_meta: GameMeta {
            app: App { id: "doudizhu".to_string(), revision: 1 },
            description: String::new(),
        },
        game_config: None,
    };
    let mut room = Room::new(room_info);
    for (i, p) in players.iter().enumerate() {
        room.state.set_player_state(
            RoomPlayerPosition::from_string(i.to_string()),
            RoomPlayerState { id_ready: true, is_connected: true, player: p.clone() },
        );
    }
    RoomContext::new(room)
}

fn play(game: &mut DouDizhuGame, ctx: &RoomContext, id: &UserId, action: Action, ref_version: u32) {
    let _ = game.handle_action(make_action_update(id, ref_version), ctx.get_ordered_players(), Some(action));
}

#[test]
fn test_invalid_move_rejected() {
    let p1 = make_player(UserId::random(), "p1");
    let p2 = make_player(UserId::random(), "p2");
    let p3 = make_player(UserId::random(), "p3");

    let mut game = DouDizhuGame::new(vec![p1.clone(), p2.clone(), p3.clone()]);
    game.stage = Stage::Playing;
    game.current_turn = 0;
    game.players[0].role = Role::Landlord;
    game.players[1].role = Role::Peasant;
    game.players[2].role = Role::Peasant;
    game.version = 1;

    game.players[0].hand = vec![card(Rank::Three), card(Rank::Four), card(Rank::Five)];

    let ctx = make_room_context(&[p1.clone(), p2.clone(), p3.clone()]);

    // Cards not in the hand
    play(&mut game, &ctx, &p1.id, Action::Play { cards: vec![card(Rank::Ace)] }, 1);
    assert_eq!(game.current_turn, 0);
    assert_eq!(game.players[0].hand.len(), 3);
    assert_eq!(game.version, 1);

    // A valid play
    play(&mut game, &ctx, &p1.id, Action::Play { cards: vec![card(Rank::Three)] }, 1);
    assert_eq!(game.current_turn, 1);
    assert_eq!(game.players[0].hand.len(), 2);
    assert_eq!(game.version, 2);

    // p2 plays a three after a three: not higher
    game.players[1].hand = vec![card(Rank::Three), card(Rank::Five)];
    play(&mut game, &ctx, &p2.id, Action::Play { cards: vec![card(Rank::Three)] }, 2);
    assert_eq!(game.current_turn, 1);
    assert_eq!(game.version, 2);

    // p2 plays a five
    play(&mut game, &ctx, &p2.id, Action::Play { cards: vec![card(Rank::Five)] }, 2);
    assert_eq!(game.current_turn, 2);
    assert_eq!(game.version, 3);
}

#[test]
fn test_pass_logic() {
    let p1 = make_player(UserId::random(), "p1");
    let p2 = make_player(UserId::random(), "p2");
    let p3 = make_player(UserId::random(), "p3");

    let mut game = DouDizhuGame::new(vec![p1.clone(), p2.clone(), p3.clone()]);
    let ctx = make_room_context(&[p1.clone(), p2.clone(), p3.clone()]);
    game.start(ctx.get_ordered_players());

    game.stage = Stage::Playing;
    game.current_turn = 0;
    game.players[0].hand = vec![card(Rank::Three), card(Rank::Ace)];
    game.players[1].hand = vec![card(Rank::Four)];
    game.players[2].hand = vec![card(Rank::Five)];
    game.version = 10;

    play(&mut game, &ctx, &p1.id, Action::Play { cards: vec![card(Rank::Three)] }, 10);
    assert_eq!(game.current_turn, 1);

    play(&mut game, &ctx, &p2.id, Action::Pass, 11);
    assert_eq!(game.current_turn, 2);
    assert_eq!(game.consecutive_passes, 1);

    play(&mut game, &ctx, &p3.id, Action::Pass, 12);
    // after two passes the trick is over and p1 leads again
    assert_eq!(game.current_turn, 0);
    assert_eq!(game.consecutive_passes, 0);
    assert!(game.last_play.is_none());
}

#[test]
fn test_optimistic_locking() {
    let p1 = make_player(UserId::random(), "p1");
    let p2 = make_player(UserId::random(), "p2");
    let p3 = make_player(UserId::random(), "p3");
    let mut game = DouDizhuGame::new(vec![p1.clone(), p2.clone(), p3.clone()]);
    game.stage = Stage::Playing;
    game.players[0].hand = vec![card(Rank::Three)];
    game.version = 5;

    let ctx = make_room_context(&[p1.clone(), p2.clone(), p3]);

    let action = Action::Play { cards: vec![card(Rank::Three)] };
    play(&mut game, &ctx, &p1.id, action.clone(), 4);
    assert_eq!(game.version, 5);

    play(&mut game, &ctx, &p1.id, action, 5);
    assert_eq!(game.version, 6);
}

#[test]
fn two_passes_start_a_new_trick_with_no_last_actions() {
    let p1 = make_player(UserId::random(), "p1");
    let p2 = make_player(UserId::random(), "p2");
    let p3 = make_player(UserId::random(), "p3");
    let mut game = DouDizhuGame::new(vec![p1.clone(), p2.clone(), p3.clone()]);
    let ctx = make_room_context(&[p1.clone(), p2.clone(), p3.clone()]);
    game.start(ctx.get_ordered_players());
    game.stage = Stage::Playing;
    game.current_turn = 0;
    game.players[0].hand = vec![card(Rank::Three), card(Rank::Ace)];
    game.players[1].hand = vec![card(Rank::Four)];
    game.players[2].hand = vec![card(Rank::Five)];
    game.version = 10;
    play(&mut game, &ctx, &p1.id, Action::Play { cards: vec![card(Rank::Three)] }, 10);
    play(&mut game, &ctx, &p2.id, Action::Pass, 11);
    assert!(game.players[1].last_action.is_some());
    play(&mut game, &ctx, &p3.id, Action::Pass, 12);
    assert_eq!(game.current_turn, 0);
    assert!(game.last_play.is_none());
    for p in &game.players {
        assert!(p.last_action.is_none());
    }
}
