use openplay::basic::game::GameEvent;
use openplay::basic::user::{Action, ActionData, ActionSource, GameActionData};
use openplay::host::service::{route_event, Routed, ServiceEvent};
use openplay::basic::game::{GameCommand, GameMeta, Id, PositionSpec};
use openplay::basic::message::{App, Data, DataType, TypedData};
use openplay::basic::room::{
    PositionMode, PositionState, Room, RoomContext, RoomEvent, RoomInfo,
    RoomObserverView, RoomPhaseKind, RoomPlayerPosition, RoomPlayerState, RoomUserPosition, RoomView,
    SeatState,
};
use openplay::basic::user::{
    AddBot, Chat, JoinRoom, KickOut, PositionChange, ReadyStateChange, RoomActionData, RoomManage, User, UserId,
};
use openplay::host::service::{
    current_view_for, end_game, game_view_recipients, handle_room_action, process_game_commands, RoomEffect, TimerOp,
};

fn uid(n: u8) -> UserId {
    let mut b = [0u8; 32];
    b[0] = n;
    UserId::from_bytes(b)
}

fn user(n: u8) -> User {
    User { id: uid(n), nickname: format!("u{}", n), avatar_url: None, is_bot: false }
}

fn info(owner: UserId) -> RoomInfo {
    RoomInfo {
        title: "room".to_string(),
        description: None,
        id: "r1".to_string(),
        owner,
        endpoint: "e".to_string(),
        game_meta: GameMeta { app: App { id: "doudizhu".to_string(), revision: 1 }, description: String::new() },
        game_config: None,
    }
}

fn fixed_room(owner: UserId) -> Room {
    let spec = PositionSpec::Fixed {
        positions: vec![
            RoomPlayerPosition::from_str("0"),
            RoomPlayerPosition::from_str("1"),
            RoomPlayerPosition::from_str("2"),
        ],
    };
    Room::new_with_position_spec(info(owner), &spec)
}

fn seat(room: &mut Room, name: &str, u: User, ready: bool) {
    room.state.set_player_state(
        RoomPlayerPosition::from_str(name),
        RoomPlayerState { id_ready: ready, is_connected: true, player: u },
    );
}

#[test]
fn flexible_spec_names_seats_from_one() {
    let p = PositionState::from_spec(&PositionSpec::Flexible { min_players: 2, max_players: 4, default_players: 9 });
    assert_eq!(p.seats.len(), 4);
    assert_eq!(p.seats[0].0.as_str(), "1");
    assert_eq!(p.seats[3].0.as_str(), "4");
    assert_eq!(p.mode, PositionMode::Flexible { min_players: 2, max_players: 4 });
    assert_eq!(p.occupied_count(), 0);
    let big = PositionState::from_spec(&PositionSpec::Flexible { min_players: 2, max_players: 12, default_players: 12 });
    assert_eq!(big.seats[9].0.as_str(), "10");
    assert_eq!(big.seats[11].0.as_str(), "12");
}

#[test]
fn fixed_spec_drops_repeated_names() {
    let spec = PositionSpec::Fixed {
        positions: vec![RoomPlayerPosition::from_str("a"), RoomPlayerPosition::from_str("a"), RoomPlayerPosition::from_str("b")],
    };
    let p = PositionState::from_spec(&spec);
    assert_eq!(p.seats.len(), 2);
    assert_eq!(p.mode, PositionMode::Fixed);
    assert!(PositionState::empty().seats.is_empty());
}

#[test]
fn seats_set_find_clear() {
    let mut room = fixed_room(uid(1));
    seat(&mut room, "1", user(5), false);
    assert_eq!(room.state.player_count(), 1);
    assert_eq!(room.state.find_player_position(&uid(5)).unwrap().as_str(), "1");
    assert!(room.state.find_player_position(&uid(6)).is_none());
    assert_eq!(room.state.get_player_state(&RoomPlayerPosition::from_str("1")).unwrap().player.id, uid(5));
    assert!(room.state.get_player_state(&RoomPlayerPosition::from_str("0")).is_none());
    assert!(!room.state.all_players_ready());
    let cleared = room.state.clear_position(&RoomPlayerPosition::from_str("1"));
    assert_eq!(cleared.unwrap().player.id, uid(5));
    assert_eq!(room.state.player_count(), 0);
    assert!(room.state.all_players_ready());
    // a seat not in the spec is added
    seat(&mut room, "9", user(7), true);
    assert_eq!(room.state.positions.seats.len(), 4);
    assert_eq!(room.state.players().len(), 1);
}

#[test]
fn remove_player_prefers_observers() {
    let mut room = fixed_room(uid(1));
    seat(&mut room, "0", user(2), true);
    let r = room.remove_player(&uid(2));
    assert_eq!(r.unwrap().id, uid(2));
    assert_eq!(room.state.player_count(), 0);
    assert!(room.remove_player(&uid(2)).is_none());
}

#[test]
fn ordered_players_follow_seat_names() {
    let mut room = Room::new(info(uid(1)));
    seat(&mut room, "2", user(3), true);
    seat(&mut room, "0", user(1), true);
    seat(&mut room, "1", user(2), true);
    seat(&mut room, "10", user(4), true);
    let ctx = RoomContext::new(room);
    let ids: Vec<UserId> = ctx.get_ordered_players().iter().map(|u| u.id).collect();
    // seats go by number: 0, 1, 2, 10
    assert_eq!(ids, vec![uid(1), uid(2), uid(3), uid(4)]);
    assert_eq!(ctx.get_room_info().id, "r1");
    assert_eq!(ctx.get_room_state().player_count(), 4);
}

#[test]
fn numbered_seats_come_first_by_number_then_others_by_name() {
    let mut room = Room::new(info(uid(1)));
    seat(&mut room, "b", user(5), true);
    seat(&mut room, "10", user(4), true);
    seat(&mut room, "a", user(6), true);
    seat(&mut room, "2", user(3), true);
    let ctx = RoomContext::new(room);
    let ids: Vec<UserId> = ctx.get_ordered_players().iter().map(|u| u.id).collect();
    assert_eq!(ids, vec![uid(3), uid(4), uid(6), uid(5)]);
    assert_eq!(openplay::basic::room::seat_number_of("007"), Some(7));
    assert_eq!(openplay::basic::room::seat_number_of("99999999999999999999"), None);
    assert_eq!(openplay::basic::room::seat_number_of("1a"), None);
    assert!(openplay::basic::room::seat_less("2", "10"));
    assert!(!openplay::basic::room::seat_less("10", "2"));
}

#[test]
fn join_adds_an_observer_then_reconnects() {
    let mut room = fixed_room(uid(1));
    let eff = handle_room_action(&mut room, Some(&uid(9)), RoomActionData::Join(JoinRoom { nickname: "nine".to_string() }), false);
    assert_eq!(room.state.observers.len(), 1);
    assert_eq!(room.state.observers[0].1.player.nickname, "nine");
    assert!(matches!(room.state.observers[0].1.view, RoomObserverView::Neutral));
    assert!(matches!(&eff[..], [RoomEffect::Broadcast(RoomEvent::UserJoin(e))] if e.user_id == uid(9)));
    room.state.observers[0].1.is_connected = false;
    let eff = handle_room_action(&mut room, Some(&uid(9)), RoomActionData::Join(JoinRoom { nickname: "again".to_string() }), false);
    assert_eq!(room.state.observers.len(), 1);
    assert!(room.state.observers[0].1.is_connected);
    assert!(matches!(&eff[..], [RoomEffect::Broadcast(RoomEvent::UserReconnected(_)), RoomEffect::SendGameView(u)] if *u == uid(9)));
}

#[test]
fn action_without_user_does_nothing() {
    let mut room = fixed_room(uid(1));
    let eff = handle_room_action(&mut room, None, RoomActionData::Leave, true);
    assert!(eff.is_empty());
}

#[test]
fn observer_sits_down_and_stands_up() {
    let mut room = fixed_room(uid(1));
    handle_room_action(&mut room, Some(&uid(4)), RoomActionData::Join(JoinRoom { nickname: "four".to_string() }), false);
    let change = PositionChange {
        from: RoomUserPosition::Observer(RoomObserverView::Neutral),
        to: RoomUserPosition::Player(RoomPlayerPosition::from_str("2")),
    };
    let eff = handle_room_action(&mut room, Some(&uid(4)), RoomActionData::PositionChange(change), false);
    assert_eq!(eff.len(), 1);
    assert!(room.state.observers.is_empty());
    let ps = room.state.get_player_state(&RoomPlayerPosition::from_str("2")).unwrap();
    assert_eq!(ps.player.id, uid(4));
    assert!(!ps.id_ready);
    // someone else may not take the same seat
    handle_room_action(&mut room, Some(&uid(5)), RoomActionData::Join(JoinRoom { nickname: "five".to_string() }), false);
    let taken = PositionChange {
        from: RoomUserPosition::Observer(RoomObserverView::Neutral),
        to: RoomUserPosition::Player(RoomPlayerPosition::from_str("2")),
    };
    assert!(handle_room_action(&mut room, Some(&uid(5)), RoomActionData::PositionChange(taken), false).is_empty());
    // moving from a seat the user does not hold is refused
    let wrong = PositionChange {
        from: RoomUserPosition::Player(RoomPlayerPosition::from_str("0")),
        to: RoomUserPosition::Player(RoomPlayerPosition::from_str("1")),
    };
    assert!(handle_room_action(&mut room, Some(&uid(4)), RoomActionData::PositionChange(wrong), false).is_empty());
    // standing up
    let up = PositionChange {
        from: RoomUserPosition::Player(RoomPlayerPosition::from_str("2")),
        to: RoomUserPosition::Observer(RoomObserverView::Neutral),
    };
    handle_room_action(&mut room, Some(&uid(4)), RoomActionData::PositionChange(up), false);
    assert_eq!(room.state.player_count(), 0);
    assert_eq!(room.state.observers.len(), 2);
}

#[test]
fn ready_start_and_phase_guard() {
    let mut room = fixed_room(uid(1));
    seat(&mut room, "0", user(1), false);
    seat(&mut room, "1", user(2), true);
    seat(&mut room, "2", user(3), true);
    // not all ready
    let eff = handle_room_action(&mut room, Some(&uid(1)), RoomActionData::RoomManage(RoomManage::StartGame), false);
    assert!(eff.is_empty());
    let eff = handle_room_action(&mut room, Some(&uid(1)), RoomActionData::ChangeReadyState(ReadyStateChange { is_ready: true }), false);
    assert_eq!(eff.len(), 1);
    // only the owner may start
    assert!(handle_room_action(&mut room, Some(&uid(2)), RoomActionData::RoomManage(RoomManage::StartGame), false).is_empty());
    let eff = handle_room_action(&mut room, Some(&uid(1)), RoomActionData::RoomManage(RoomManage::StartGame), false);
    assert!(matches!(&eff[..], [RoomEffect::StartGame]));
    assert_eq!(room.state.phase.kind, RoomPhaseKind::Gaming);
    // during the game seats cannot change and the game cannot start again
    let change = PositionChange {
        from: RoomUserPosition::Player(RoomPlayerPosition::from_str("0")),
        to: RoomUserPosition::Observer(RoomObserverView::Neutral),
    };
    assert!(handle_room_action(&mut room, Some(&uid(1)), RoomActionData::PositionChange(change), false).is_empty());
    assert!(handle_room_action(&mut room, Some(&uid(1)), RoomActionData::RoomManage(RoomManage::StartGame), false).is_empty());
    // leaving during the game keeps the seat, disconnected
    let eff = handle_room_action(&mut room, Some(&uid(2)), RoomActionData::Leave, false);
    assert_eq!(eff.len(), 1);
    let ps = room.state.get_player_state(&RoomPlayerPosition::from_str("1")).unwrap();
    assert!(!ps.is_connected);
    // chat is always broadcast
    let eff = handle_room_action(&mut room, Some(&uid(3)), RoomActionData::Chat(Chat { message: vec![] }), false);
    assert!(matches!(&eff[..], [RoomEffect::Broadcast(RoomEvent::UserChat(_))]));
}

#[test]
fn add_bot_and_kick_out() {
    let mut room = fixed_room(uid(1));
    let add = AddBot { position: RoomPlayerPosition::from_str("0"), name: None };
    assert!(handle_room_action(&mut room, Some(&uid(1)), RoomActionData::RoomManage(RoomManage::AddBot(add)), false).is_empty());
    let add = AddBot { position: RoomPlayerPosition::from_str("0"), name: Some("bot".to_string()) };
    let eff = handle_room_action(&mut room, Some(&uid(1)), RoomActionData::RoomManage(RoomManage::AddBot(add)), true);
    assert!(matches!(&eff[..], [RoomEffect::CreateBot(_)]));
    seat(&mut room, "1", user(2), true);
    let kick = KickOut { player: uid(2), reason: None };
    let eff = handle_room_action(&mut room, Some(&uid(1)), RoomActionData::RoomManage(RoomManage::KickOut(kick)), false);
    assert!(matches!(&eff[..], [RoomEffect::Broadcast(RoomEvent::UserKickedOut(e))] if e.user_id == uid(2)));
    assert_eq!(room.state.player_count(), 0);
}

#[test]
fn game_config_is_recorded() {
    let mut room = fixed_room(uid(1));
    let cfg = TypedData {
        data_type: DataType { app: App { id: "doudizhu".to_string(), revision: 1 }, kind: "config".to_string() },
        codec: "json".to_string(),
        data: Data(vec![1, 2, 3]),
    };
    let eff = handle_room_action(&mut room, Some(&uid(1)), RoomActionData::RoomManage(RoomManage::SetGameConfig(cfg)), false);
    assert_eq!(room.info.game_config.as_ref().unwrap().data.0, vec![1, 2, 3]);
    assert!(matches!(&eff[..], [RoomEffect::ApplyGameConfig(_)]));
}

#[test]
fn game_over_resets_humans_only() {
    let mut room = fixed_room(uid(1));
    seat(&mut room, "0", user(1), true);
    seat(&mut room, "1", User::new_robot("bot".to_string(), uid(8)), true);
    room.state.phase.kind = RoomPhaseKind::Gaming;
    let ops = process_game_commands(
        vec![
            GameCommand::CancelTimer { id: Id("a".to_string()), duration_secs: 0 },
            GameCommand::CreateTimer { id: Id("b".to_string()), duration_secs: 30 },
            GameCommand::GameOver,
        ],
        &mut room,
    );
    assert_eq!(ops.len(), 2);
    assert!(matches!(&ops[0], TimerOp::StopTimer(Id(x)) if x == "a"));
    assert!(matches!(&ops[1], TimerOp::StartTimer { duration_secs: 30, .. }));
    assert_eq!(room.state.phase.kind, RoomPhaseKind::Waiting);
    assert!(!room.state.get_player_state(&RoomPlayerPosition::from_str("0")).unwrap().id_ready);
    assert!(room.state.get_player_state(&RoomPlayerPosition::from_str("1")).unwrap().id_ready);
    end_game(&mut room);
    assert_eq!(room.state.phase.kind, RoomPhaseKind::Waiting);
}

#[test]
fn views_reach_the_right_users() {
    let mut room = fixed_room(uid(1));
    seat(&mut room, "0", user(1), true);
    seat(&mut room, "1", user(2), true);
    handle_room_action(&mut room, Some(&uid(7)), RoomActionData::Join(JoinRoom { nickname: "seven".to_string() }), false);
    let views = vec![
        RoomView::Position(RoomPlayerPosition::from_str("0")),
        RoomView::Position(RoomPlayerPosition::from_str("1")),
        RoomView::Position(RoomPlayerPosition::from_str("2")),
        RoomView::Neutral,
    ];
    let r = game_view_recipients(&views, &room);
    assert_eq!(r, vec![(uid(1), 0), (uid(2), 1), (uid(7), 3)]);
    assert!(game_view_recipients(&vec![], &room).is_empty());
    // between games no view is pushed; in a game the seat's view, else the neutral one
    assert_eq!(current_view_for(&views, &room, &uid(2)), None);
    room.state.phase.kind = RoomPhaseKind::Gaming;
    assert_eq!(current_view_for(&views, &room, &uid(2)), Some(1));
    assert_eq!(current_view_for(&views, &room, &uid(7)), Some(3));
    let _ = SeatState::Vacant;
}

#[test]
fn events_are_routed_to_the_room_or_the_game() {
    let typed = TypedData {
        data_type: DataType { app: App { id: "doudizhu".to_string(), revision: 1 }, kind: "action".to_string() },
        codec: "json".to_string(),
        data: Data(vec![]),
    };
    let mv = Action { source: ActionSource::User(uid(4)), data: ActionData::GameAction(GameActionData { message: typed, ref_version: 12 }) };
    assert!(matches!(route_event(RoomPhaseKind::Waiting, ServiceEvent::Action(mv.clone())), Routed::Dropped));
    match route_event(RoomPhaseKind::Gaming, ServiceEvent::Action(mv)) {
        Routed::Game(u) => {
            assert_eq!(u.seq, 12);
            assert!(matches!(u.event, GameEvent::Action(_)));
        }
        other => panic!("unexpected {:?}", other),
    }
    let join = Action { source: ActionSource::User(uid(5)), data: ActionData::RoomAction(RoomActionData::Join(JoinRoom { nickname: "x".to_string() })) };
    match route_event(RoomPhaseKind::Gaming, ServiceEvent::Action(join)) {
        Routed::Room(Some(u), RoomActionData::Join(j)) => {
            assert_eq!(u, uid(5));
            assert_eq!(j.nickname, "x");
        }
        other => panic!("unexpected {:?}", other),
    }
    match route_event(RoomPhaseKind::Waiting, ServiceEvent::TimerExpired(Id("t".to_string()))) {
        Routed::Game(u) => {
            assert_eq!(u.seq, 0);
            match u.event {
                GameEvent::TimerExpired(t) => assert_eq!(t.timer_id.0, "t"),
                other => panic!("unexpected {:?}", other),
            }
        }
        other => panic!("unexpected {:?}", other),
    }
}

fn names_distinct(room: &Room) -> bool {
    let seats = &room.state.positions.seats;
    for i in 0..seats.len() {
        for j in 0..seats.len() {
            if i != j && seats[i].0 == seats[j].0 {
                return false;
            }
        }
    }
    true
}

fn observers_distinct(room: &Room) -> bool {
    let obs = &room.state.observers;
    for i in 0..obs.len() {
        for j in 0..obs.len() {
            if i != j && obs[i].0 == obs[j].0 {
                return false;
            }
        }
    }
    true
}

fn users_in_one_place(room: &Room) -> bool {
    let mut ids: Vec<UserId> = Vec::new();
    for (_, seat) in &room.state.positions.seats {
        if let SeatState::Occupied(ps) = seat {
            ids.push(ps.player.id);
        }
    }
    for (id, st) in &room.state.observers {
        if st.player.id != *id {
            return false;
        }
        ids.push(*id);
    }
    for i in 0..ids.len() {
        for j in 0..ids.len() {
            if i != j && ids[i] == ids[j] {
                return false;
            }
        }
    }
    true
}

#[test]
fn seat_names_and_observers_stay_distinct() {
    let spec = PositionSpec::Flexible { min_players: 2, max_players: 4, default_players: 2 };
    let mut room = Room::new_with_position_spec(info(uid(1)), &spec);
    for n in 1..4u8 {
        handle_room_action(&mut room, Some(&uid(n)), RoomActionData::Join(JoinRoom { nickname: format!("n{}", n) }), false);
        // a second join of the same user adds no second entry
        handle_room_action(&mut room, Some(&uid(n)), RoomActionData::Join(JoinRoom { nickname: format!("n{}", n) }), false);
    }
    assert_eq!(room.state.observers.len(), 3);
    assert!(observers_distinct(&room));
    let sit = |to: &str| PositionChange {
        from: RoomUserPosition::Observer(RoomObserverView::Neutral),
        to: RoomUserPosition::Player(RoomPlayerPosition::from_str(to)),
    };
    handle_room_action(&mut room, Some(&uid(1)), RoomActionData::PositionChange(sit("1")), false);
    handle_room_action(&mut room, Some(&uid(2)), RoomActionData::PositionChange(sit("2")), false);
    assert!(names_distinct(&room));
    // moving between seats, and to a seat that is taken
    let mv = PositionChange {
        from: RoomUserPosition::Player(RoomPlayerPosition::from_str("1")),
        to: RoomUserPosition::Player(RoomPlayerPosition::from_str("2")),
    };
    handle_room_action(&mut room, Some(&uid(1)), RoomActionData::PositionChange(mv), false);
    assert!(names_distinct(&room));
    assert!(observers_distinct(&room));
    handle_room_action(&mut room, Some(&uid(3)), RoomActionData::Leave, false);
    handle_room_action(&mut room, Some(&uid(3)), RoomActionData::Join(JoinRoom { nickname: "again".to_string() }), false);
    assert!(names_distinct(&room));
    assert!(observers_distinct(&room));
    assert!(users_in_one_place(&room));
    assert_eq!(room.state.player_count() + room.state.observers.len(), 3);
    // standing up, sitting down again elsewhere, and joining twice keep one place each
    let up = PositionChange {
        from: RoomUserPosition::Player(RoomPlayerPosition::from_str("1")),
        to: RoomUserPosition::Observer(RoomObserverView::Neutral),
    };
    handle_room_action(&mut room, Some(&uid(1)), RoomActionData::PositionChange(up), false);
    assert!(users_in_one_place(&room));
    handle_room_action(&mut room, Some(&uid(1)), RoomActionData::PositionChange(sit("3")), false);
    assert!(users_in_one_place(&room));
    handle_room_action(&mut room, Some(&uid(1)), RoomActionData::Join(JoinRoom { nickname: "n1".to_string() }), false);
    handle_room_action(&mut room, Some(&uid(2)), RoomActionData::Join(JoinRoom { nickname: "n2".to_string() }), false);
    assert!(users_in_one_place(&room));
    assert!(names_distinct(&room));
    assert_eq!(room.state.player_count() + room.state.observers.len(), 3);
}
