use openplay::basic::game::{GameCommand, GameEvent, GameMeta, PositionSpec, SequencedGameUpdate};
use openplay::basic::message::{App, Data, DataType, TypedData};
use openplay::basic::room::{Room, RoomContext, RoomInfo, RoomPhaseKind, RoomPlayerPosition, RoomPlayerState, SeatState};
use openplay::basic::user::{
    Action, ActionData, ActionSource, GameActionData, ReadyStateChange, RoomActionData, RoomManage, User, UserId,
};
use openplay::doudizhu::bot::SimpleBotLogic;
use openplay::doudizhu::game::{DouDizhuGame, Stage};
use openplay::host::service::{handle_room_action, process_game_commands, route_event, RoomEffect, Routed, ServiceEvent};

fn uid(n: u8) -> UserId {
    let mut b = [0u8; 32];
    b[0] = n;
    UserId::from_bytes(b)
}

fn player(n: u8) -> User {
    User::new_robot(format!("Player {}", n), uid(n))
}

fn message() -> TypedData {
    TypedData {
        data_type: DataType { app: App { id: "doudizhu".to_string(), revision: 1 }, kind: "action".to_string() },
        codec: "json".to_string(),
        data: Data(vec![]),
    }
}

/// Three bots sit down, the owner gets ready and starts the game, and the bots play it
/// through the room's routing until it is over; the room is then waiting again.
#[test]
fn bots_play_a_room_game_to_the_end() {
    let info = RoomInfo {
        title: "Test Room".to_string(),
        description: None,
        id: "room1".to_string(),
        owner: uid(1),
        endpoint: "ws://localhost".to_string(),
        game_meta: GameMeta { app: App { id: "doudizhu".to_string(), revision: 1 }, description: String::new() },
        game_config: None,
    };
    let spec = PositionSpec::Fixed {
        positions: vec![RoomPlayerPosition::from_str("0"), RoomPlayerPosition::from_str("1"), RoomPlayerPosition::from_str("2")],
    };
    let mut room = Room::new_with_position_spec(info, &spec);
    for n in 1..=3u8 {
        room.state.set_player_state(
            RoomPlayerPosition::from_string((n - 1).to_string()),
            RoomPlayerState { id_ready: n != 1, is_connected: true, player: player(n) },
        );
    }

    let ready = RoomActionData::ChangeReadyState(ReadyStateChange { is_ready: true });
    handle_room_action(&mut room, Some(&uid(1)), ready, false);
    let eff = handle_room_action(&mut room, Some(&uid(1)), RoomActionData::RoomManage(RoomManage::StartGame), false);
    assert!(matches!(eff.as_slice(), [RoomEffect::StartGame]));
    assert_eq!(room.state.phase.kind, RoomPhaseKind::Gaming);

    let mut game = DouDizhuGame::new(vec![]);
    let players = RoomContext::new(room.clone()).get_ordered_players();
    assert_eq!(players.iter().map(|p| p.id).collect::<Vec<_>>(), vec![uid(1), uid(2), uid(3)]);
    let cmds = game
        .handle_event(SequencedGameUpdate { event: GameEvent::GameStart, seq: 0 }, players.clone(), None)
        .expect("the game starts");
    process_game_commands(cmds, &mut room);
    assert_eq!(game.stage, Stage::Bidding);

    let mut game_over = false;
    for _ in 0..500 {
        if game.stage == Stage::Finished {
            break;
        }
        let (id, mv) = players
            .iter()
            .find_map(|p| SimpleBotLogic::decide(&p.id, &game).map(|a| (p.id, a)))
            .expect("some bot is to move");
        let action = Action {
            source: ActionSource::User(id),
            data: ActionData::GameAction(GameActionData { message: message(), ref_version: game.version }),
        };
        let update = match route_event(room.state.phase.kind, ServiceEvent::Action(action)) {
            Routed::Game(u) => u,
            other => panic!("a move went elsewhere: {:?}", other),
        };
        let cmds = game.handle_event(update, players.clone(), Some(mv)).expect("the move is taken");
        if cmds.iter().any(|c| matches!(c, GameCommand::GameOver)) {
            game_over = true;
        }
        process_game_commands(cmds, &mut room);
    }
    assert_eq!(game.stage, Stage::Finished);
    assert!(game_over);
    assert_eq!(room.state.phase.kind, RoomPhaseKind::Waiting);
    // the players are bots, so they stay ready for the next game
    for (_, seat) in &room.state.positions.seats {
        match seat {
            SeatState::Occupied(ps) => assert!(ps.id_ready),
            SeatState::Vacant => panic!("a seat was emptied"),
        }
    }
}
