use openplay::tui::lifecycle::{sign_in_plan, SignIn};
use openplay::doudizhu::game::Role;
use openplay::tui::lifecycle::state_message;
use openplay::tui::log_buffer::scroll_from_top;
use openplay::tui::view::{card_color, landlord_won, neighbours, player_index, role_key, stage_key, CardColor};
use openplay::tui::view::{status_prompt, Prompt};
use openplay::basic::user::ActionData;
use openplay::tui::lifecycle::make_game_action;
use openplay::basic::room::RoomUserPosition;
use openplay::basic::user::{RoomActionData, RoomManage, User, UserId};
use openplay::doudizhu::game::{Action, DouDizhuGame, Stage};
use openplay::poker::{Card, NaturalCard, Rank, Suit};
use openplay::tui::app::{
    default_identity, handle_game_key, handle_lobby_key, handle_user_manager_key, make_lobby_state, App, GameState,
    IdentityProfile, Key, KeyAction, KeyPress, LobbyState, LogMode, Outgoing, Screen, ServerUpdate, UserManagerMode,
    UserManagerState,
};
use openplay::tui::config::{default_room_path, default_server_url, CliArgs, ConfigLayer, TuiConfig};
use openplay::tui::log_buffer::{LogBuffer, LogEntry, LogLevel};
use openplay::tui::text::{card_to_short_string, cards_to_string, truncate_user_id};

fn entry(m: &str) -> LogEntry {
    LogEntry { timestamp: "t".to_string(), level: LogLevel::Info, message: m.to_string() }
}

fn profile(nick: &str, uid: &str) -> IdentityProfile {
    IdentityProfile { nickname: nick.to_string(), user_id: uid.to_string(), path: format!("/keys/{}", uid) }
}

fn press(k: Key) -> KeyPress {
    KeyPress { key: k, ctrl: false }
}

fn nc(suit: Suit, rank: Rank) -> Card {
    Card::NaturalCard(NaturalCard { suit, rank })
}

fn me() -> UserId {
    UserId::from_bytes([0u8; 32])
}

fn playing_table() -> GameState {
    let users = vec![
        User { id: me(), nickname: "me".to_string(), avatar_url: None, is_bot: false },
        User { id: UserId::from_bytes([1u8; 32]), nickname: "b".to_string(), avatar_url: None, is_bot: false },
        User { id: UserId::from_bytes([2u8; 32]), nickname: "c".to_string(), avatar_url: None, is_bot: false },
    ];
    let mut g = DouDizhuGame::new(users);
    g.players[0].hand = vec![nc(Suit::Hearts, Rank::Three), nc(Suit::Spades, Rank::Four), nc(Suit::Clubs, Rank::Five)];
    g.players[0].hand_count = 3;
    g.stage = Stage::Playing;
    g.current_turn = 0;
    let mut gs = GameState::new(&me().to_base64());
    gs.apply_update(ServerUpdate::GameView { version: 7, game: Some(g), event_seqs: vec![] });
    gs
}

#[test]
fn log_buffer_drops_the_oldest_beyond_capacity() {
    let mut b = LogBuffer::new(3);
    for m in ["a", "b", "c", "d", "e"] {
        b.push(entry(m));
    }
    assert_eq!(b.len(), 3);
    let all: Vec<String> = b.all().into_iter().map(|e| e.message).collect();
    assert_eq!(all, vec!["c", "d", "e"]);
    let recent: Vec<String> = b.recent(2).into_iter().map(|e| e.message).collect();
    assert_eq!(recent, vec!["d", "e"]);
    assert_eq!(b.recent(10).len(), 3);
}

#[test]
fn log_buffer_of_capacity_zero_keeps_the_latest_entry() {
    let mut b = LogBuffer::new(0);
    b.push(entry("a"));
    b.push(entry("b"));
    assert_eq!(b.len(), 1);
    assert_eq!(b.all()[0].message, "b");
}

#[test]
fn config_takes_command_line_then_environment_then_file_then_defaults() {
    let args = CliArgs { config: None, server_url: Some("http://cli".to_string()), user_id: None, locale: None, room_path: None };
    let env = ConfigLayer { server_url: Some("http://env".to_string()), user_id: Some("env-user".to_string()), locale: None, room_path: None };
    let file = Some(ConfigLayer {
        server_url: Some("http://file".to_string()),
        user_id: Some("file-user".to_string()),
        locale: Some("fr".to_string()),
        room_path: None,
    });
    let c = TuiConfig::load(&args, &env, &file);
    assert_eq!(c.server_url, "http://cli");
    assert_eq!(c.user_id.as_deref(), Some("env-user"));
    assert_eq!(c.locale.as_deref(), Some("fr"));
    assert_eq!(c.room_path, "/room/ua");
    let empty = ConfigLayer { server_url: None, user_id: None, locale: None, room_path: None };
    let none = CliArgs { config: None, server_url: None, user_id: None, locale: None, room_path: None };
    let d = TuiConfig::load(&none, &empty, &None);
    assert_eq!(d.server_url, default_server_url());
    assert_eq!(d.server_url, "http://localhost:3000");
    assert_eq!(d.room_path, default_room_path());
    assert!(d.user_id.is_none());
    let dflt = TuiConfig::default();
    assert_eq!(dflt.server_url, "http://localhost:3000");
}

#[test]
fn user_ids_are_shortened_past_sixteen_characters() {
    assert_eq!(truncate_user_id("short"), "short");
    assert_eq!(truncate_user_id("0123456789abcdef"), "0123456789abcdef");
    assert_eq!(truncate_user_id("0123456789abcdefXYZ"), "01234567..defXYZ");
}

#[test]
fn cards_are_written_briefly() {
    assert_eq!(card_to_short_string(&nc(Suit::Spades, Rank::Ace)), "\u{2660}A");
    assert_eq!(card_to_short_string(&nc(Suit::Hearts, Rank::Ten)), "\u{2665}10");
    assert_eq!(card_to_short_string(&Card::RedJoker), "RJ");
    assert_eq!(card_to_short_string(&Card::BlackJoker), "BJ");
    assert_eq!(card_to_short_string(&Card::WildCard), "WC");
    assert_eq!(cards_to_string(&[nc(Suit::Diamonds, Rank::Two), Card::BlackJoker]), "\u{2666}2 BJ");
    assert_eq!(cards_to_string(&[]), "");
}

#[test]
fn lobby_keys_edit_the_focused_field() {
    let mut l = make_lobby_state("http://h".to_string(), None, vec![profile("zed", "Z"), profile("amy", "A")]);
    assert_eq!(l.user_id, "A");
    assert_eq!(l.selected_identity.as_ref().unwrap().nickname, "amy");
    handle_lobby_key(&mut l, Key::Char('x'));
    assert_eq!(l.server_url, "http://hx");
    handle_lobby_key(&mut l, Key::Backspace);
    assert_eq!(l.server_url, "http://h");
    handle_lobby_key(&mut l, Key::Tab);
    assert_eq!(l.focus, 1);
    // typing over a selected identity starts the id over
    handle_lobby_key(&mut l, Key::Char('q'));
    assert_eq!(l.user_id, "q");
    assert!(l.selected_identity.is_none());
    handle_lobby_key(&mut l, Key::Char('r'));
    handle_lobby_key(&mut l, Key::Backspace);
    assert_eq!(l.user_id, "q");
    handle_lobby_key(&mut l, Key::BackTab);
    assert_eq!(l.focus, 0);
}

#[test]
fn default_identity_is_the_first_by_nickname_then_id() {
    assert!(default_identity(vec![]).is_none());
    let p = default_identity(vec![profile("bob", "2"), profile("al", "9"), profile("al", "3")]).unwrap();
    assert_eq!(p.user_id, "3");
}

#[test]
fn table_keys_without_a_game_manage_the_room() {
    let mut gs = GameState::new("me");
    match handle_game_key(&mut gs, Key::Char('2')) {
        KeyAction::SendAction(Outgoing::Room(RoomActionData::PositionChange(pc))) => {
            match pc.to {
                RoomUserPosition::Player(p) => assert_eq!(p.as_str(), "1"),
                other => panic!("unexpected {:?}", other),
            }
        }
        other => panic!("unexpected {:?}", other),
    }
    assert!(matches!(handle_game_key(&mut gs, Key::Char('a')), KeyAction::Nothing));
    assert!(gs.add_bot_mode);
    match handle_game_key(&mut gs, Key::Char('3')) {
        KeyAction::SendAction(Outgoing::Room(RoomActionData::RoomManage(RoomManage::AddBot(b)))) => {
            assert_eq!(b.position.as_str(), "2");
        }
        other => panic!("unexpected {:?}", other),
    }
    assert!(!gs.add_bot_mode);
    assert!(matches!(
        handle_game_key(&mut gs, Key::Char('s')),
        KeyAction::SendAction(Outgoing::Room(RoomActionData::RoomManage(RoomManage::StartGame)))
    ));
    match handle_game_key(&mut gs, Key::Char('r')) {
        KeyAction::SendAction(Outgoing::Room(RoomActionData::ChangeReadyState(r))) => assert!(r.is_ready),
        other => panic!("unexpected {:?}", other),
    }
    gs.kick_mode = true;
    assert!(matches!(handle_game_key(&mut gs, Key::Esc), KeyAction::Nothing));
    assert!(!gs.kick_mode);
    assert!(matches!(handle_game_key(&mut gs, Key::Char('q')), KeyAction::Disconnect));
}

#[test]
fn table_keys_in_play_select_and_play_cards() {
    let mut gs = playing_table();
    assert_eq!(gs.my_index, Some(0));
    assert!(gs.is_my_turn());
    handle_game_key(&mut gs, Key::Right);
    handle_game_key(&mut gs, Key::Right);
    handle_game_key(&mut gs, Key::Right);
    assert_eq!(gs.cursor, 2);
    handle_game_key(&mut gs, Key::Char(' '));
    handle_game_key(&mut gs, Key::Left);
    handle_game_key(&mut gs, Key::Char(' '));
    handle_game_key(&mut gs, Key::Char(' '));
    assert_eq!(gs.selected, vec![2]);
    match handle_game_key(&mut gs, Key::Enter) {
        KeyAction::SendAction(Outgoing::Game { action: Action::Play { cards }, ref_version }) => {
            assert_eq!(cards, vec![nc(Suit::Clubs, Rank::Five)]);
            assert_eq!(ref_version, 7);
        }
        other => panic!("unexpected {:?}", other),
    }
    assert!(gs.selected.is_empty());
    assert!(matches!(
        handle_game_key(&mut gs, Key::Char('p')),
        KeyAction::SendAction(Outgoing::Game { action: Action::Pass, ref_version: 7 })
    ));
    // bidding only during the bidding stage
    assert!(matches!(handle_game_key(&mut gs, Key::Char('b')), KeyAction::Nothing));
    assert!(!gs.bid_mode);
}

#[test]
fn bid_mode_takes_a_digit() {
    let mut gs = playing_table();
    gs.game.as_mut().unwrap().stage = Stage::Bidding;
    handle_game_key(&mut gs, Key::Char('b'));
    assert!(gs.bid_mode);
    assert!(matches!(
        handle_game_key(&mut gs, Key::Char('3')),
        KeyAction::SendAction(Outgoing::Game { action: Action::Bid { score: 3 }, ref_version: 7 })
    ));
    assert!(!gs.bid_mode);
}

#[test]
fn table_keeps_the_latest_fifty_messages() {
    let mut gs = GameState::new("me");
    for i in 0..60 {
        gs.push_message(format!("m{}", i));
    }
    assert_eq!(gs.messages.len(), 50);
    assert_eq!(gs.messages[0], "m10");
    gs.apply_update(ServerUpdate::GameView { version: 1, game: None, event_seqs: vec![42] });
    assert_eq!(gs.messages.last().unwrap(), "Game event seq=42");
    assert_eq!(gs.version, 1);
}

#[test]
fn f12_cycles_the_log_panel_and_the_full_log_scrolls() {
    let mut app = App::new("http://h".to_string(), Some("u".to_string()), None);
    assert_eq!(app.log_mode, LogMode::Off);
    app.handle_key(press(Key::F(12)), 5);
    assert_eq!(app.log_mode, LogMode::Panel);
    app.handle_key(press(Key::F(12)), 5);
    assert_eq!(app.log_mode, LogMode::Fullscreen);
    app.handle_key(press(Key::Up), 5);
    app.handle_key(press(Key::Up), 5);
    assert_eq!(app.log_scroll, 2);
    app.handle_key(press(Key::Home), 5);
    assert_eq!(app.log_scroll, 4);
    app.handle_key(press(Key::End), 5);
    assert_eq!(app.log_scroll, 0);
    app.handle_key(press(Key::Esc), 5);
    assert_eq!(app.log_mode, LogMode::Off);
    assert!(matches!(app.handle_key(KeyPress { key: Key::Char('c'), ctrl: true }, 0), KeyAction::Quit));
    assert!(matches!(app.handle_key(KeyPress { key: Key::Char('u'), ctrl: true }, 0), KeyAction::OpenUserManager));
}

#[test]
fn connecting_from_the_lobby_and_back() {
    let mut app = App::new("http://h".to_string(), None, Some(profile("amy", "A")));
    assert!(matches!(app.handle_key(press(Key::Enter), 0), KeyAction::Connect));
    let (url, uid) = app.start_connect().unwrap();
    assert_eq!((url.as_str(), uid.as_str()), ("http://h", "A"));
    assert!(matches!(app.screen, Screen::Connecting));
    assert_eq!(app.pending_key_file.as_deref(), Some("/keys/A"));
    app.connected();
    match &app.screen {
        Screen::Game(gs) => assert_eq!(gs.my_user_id, "A"),
        _ => panic!("not at the table"),
    }
    assert_eq!(app.current_nickname.as_deref(), Some("amy"));
    app.go_to_reconnecting("http://h".to_string(), "/room/ua".to_string(), vec![]);
    match &app.screen {
        Screen::Reconnecting(rs) => {
            assert_eq!(rs.max_attempts, 10);
            assert_eq!(rs.attempts, 0);
        }
        _ => panic!("not reconnecting"),
    }
    assert_eq!(app.pending_key_file.as_deref(), Some("/keys/A"));
    app.reconnected(vec![]);
    assert!(matches!(app.screen, Screen::Game(_)));
    assert!(app.pending_key_file.is_none());
    app.connection_failed("refused".to_string(), vec![profile("bo", "B")]);
    match &app.screen {
        Screen::Lobby(l) => {
            assert_eq!(l.error_message.as_deref(), Some("refused"));
            assert_eq!(l.user_id, "B");
        }
        _ => panic!("not in the lobby"),
    }
    assert!(app.current_key_file.is_none());
}

#[test]
fn empty_lobby_does_not_connect() {
    let mut app = App::new("http://h".to_string(), None, None);
    assert!(matches!(app.handle_key(press(Key::Enter), 0), KeyAction::Nothing));
    assert!(app.start_connect().is_none());
}

fn manager(profiles: Vec<IdentityProfile>) -> UserManagerState {
    let lobby: LobbyState = make_lobby_state("http://h".to_string(), None, vec![]);
    UserManagerState {
        profiles,
        selected: 0,
        input: String::new(),
        mode: UserManagerMode::Browse,
        error_message: None,
        previous_screen: Box::new(Screen::Lobby(lobby)),
    }
}

#[test]
fn user_manager_creates_deletes_and_chooses() {
    let mut um = manager(vec![profile("amy", "A"), profile("bob", "B")]);
    handle_user_manager_key(&mut um, Key::Down);
    handle_user_manager_key(&mut um, Key::Down);
    assert_eq!(um.selected, 1);
    handle_user_manager_key(&mut um, Key::Char('n'));
    assert_eq!(um.mode, UserManagerMode::Create);
    assert!(matches!(handle_user_manager_key(&mut um, Key::Enter).1, KeyAction::NicknameRequired));
    for c in "  cy ".chars() {
        handle_user_manager_key(&mut um, Key::Char(c));
    }
    match handle_user_manager_key(&mut um, Key::Enter).1 {
        KeyAction::CreateIdentity(n) => assert_eq!(n, "cy"),
        other => panic!("unexpected {:?}", other),
    }
    handle_user_manager_key(&mut um, Key::Esc);
    assert_eq!(um.mode, UserManagerMode::Browse);
    assert!(um.input.is_empty());
    handle_user_manager_key(&mut um, Key::Char('d'));
    assert_eq!(um.mode, UserManagerMode::DeleteConfirm);
    match handle_user_manager_key(&mut um, Key::Char('y')).1 {
        KeyAction::DeleteIdentity(p) => assert_eq!(p, "/keys/B"),
        other => panic!("unexpected {:?}", other),
    }
    handle_user_manager_key(&mut um, Key::Char('n'));
    assert_eq!(um.mode, UserManagerMode::Browse);
    assert!(matches!(handle_user_manager_key(&mut um, Key::Char('r')).1, KeyAction::ReloadIdentities));
    match handle_user_manager_key(&mut um, Key::Enter).0 {
        Some(Screen::Lobby(l)) => {
            assert_eq!(l.user_id, "B");
            assert_eq!(l.selected_identity.unwrap().nickname, "bob");
        }
        _ => panic!("not back to the lobby"),
    }
}

#[test]
fn user_manager_takes_reloaded_and_created_identities() {
    let mut um = manager(vec![profile("amy", "A"), profile("bob", "B"), profile("cy", "C")]);
    um.selected = 2;
    um.identities_reloaded(Ok(vec![profile("amy", "A")]));
    assert_eq!(um.selected, 0);
    um.identities_reloaded(Err("disk".to_string()));
    assert_eq!(um.error_message.as_deref(), Some("disk"));
    assert_eq!(um.profiles.len(), 1);
    um.set_error("typed nothing".to_string());
    assert_eq!(um.error_message.as_deref(), Some("typed nothing"));
}

#[test]
fn the_app_opens_the_user_manager_on_the_selected_identity() {
    let mut app = App::new("http://h".to_string(), None, Some(profile("bob", "B")));
    app.open_user_manager(vec![profile("amy", "A"), profile("bob", "B")]);
    match &app.screen {
        Screen::UserManager(um) => {
            assert_eq!(um.selected, 1);
            assert_eq!(um.mode, UserManagerMode::Browse);
        }
        _ => panic!("not in the user manager"),
    }
    assert!(matches!(app.handle_key(KeyPress { key: Key::Char('u'), ctrl: true }, 0), KeyAction::Nothing));
    app.handle_key(press(Key::Esc), 0);
    assert!(matches!(app.screen, Screen::Lobby(_)));
}

#[test]
fn connection_events_move_the_client_between_screens() {
    let mut app = App::new("http://h".to_string(), Some("u1".to_string()), None);
    app.start_connect().unwrap();
    // the connection opens: the table, and a join to send
    match app.on_connected(vec![]) {
        Some(ActionData::RoomAction(RoomActionData::Join(j))) => assert_eq!(j.nickname, "u1"),
        other => panic!("unexpected {:?}", other),
    }
    assert!(matches!(app.screen, Screen::Game(_)));
    // an error at the table is shown
    assert!(!app.on_server_error("boom".to_string(), vec![]));
    match &app.screen {
        Screen::Game(gs) => assert_eq!(gs.messages.last().unwrap(), "Error: boom"),
        _ => panic!("not at the table"),
    }
    // dropped with no game shown: back to the lobby
    app.on_disconnected("http://h".to_string(), "/room/ua".to_string(), vec![]);
    match &app.screen {
        Screen::Lobby(l) => assert_eq!(l.error_message.as_deref(), Some("Server disconnected")),
        _ => panic!("not in the lobby"),
    }
}

#[test]
fn reconnecting_counts_attempts_and_gives_up() {
    let mut app = App::new("http://h".to_string(), Some("u1".to_string()), None);
    app.start_connect().unwrap();
    app.on_connected(vec![]);
    if let Screen::Game(gs) = &mut app.screen {
        gs.game = Some(playing_table().game.unwrap());
    }
    app.on_disconnected("http://h".to_string(), "/room/ua".to_string(), vec![]);
    assert!(matches!(app.screen, Screen::Reconnecting(_)));
    let (url, path, uid) = app.on_tick(false, vec![]).unwrap();
    assert_eq!((url.as_str(), path.as_str(), uid.as_str()), ("http://h", "/room/ua", "u1"));
    assert!(app.on_tick(true, vec![]).is_none());
    app.on_disconnected("http://h".to_string(), "/room/ua".to_string(), vec![]);
    match &app.screen {
        Screen::Reconnecting(rs) => {
            assert_eq!(rs.attempts, 1);
            assert_eq!(rs.last_error.as_deref(), Some("Connection closed"));
        }
        _ => panic!("not reconnecting"),
    }
    for _ in 0..9 {
        app.reconnect_failed("refused".to_string());
    }
    assert!(app.on_tick(false, vec![]).is_none());
    match &app.screen {
        Screen::Lobby(l) => assert_eq!(l.error_message.as_deref(), Some("Reconnection failed after max attempts")),
        _ => panic!("not in the lobby"),
    }
}

#[test]
fn reconnected_client_joins_again() {
    let mut app = App::new("http://h".to_string(), Some("u1".to_string()), None);
    app.start_connect().unwrap();
    app.on_connected(vec![]);
    if let Screen::Game(gs) = &mut app.screen {
        gs.game = Some(playing_table().game.unwrap());
    }
    app.on_disconnected("http://h".to_string(), "/room/ua".to_string(), vec![]);
    app.on_server_error("timeout".to_string(), vec![]);
    match &app.screen {
        Screen::Reconnecting(rs) => assert_eq!(rs.last_error.as_deref(), Some("timeout")),
        _ => panic!("not reconnecting"),
    }
    match app.on_connected(vec![]) {
        Some(ActionData::RoomAction(RoomActionData::Join(j))) => assert_eq!(j.nickname, "u1"),
        other => panic!("unexpected {:?}", other),
    }
    assert!(matches!(app.screen, Screen::Game(_)));
}

#[test]
fn failing_first_connection_returns_to_the_lobby() {
    let mut app = App::new("http://h".to_string(), Some("u1".to_string()), None);
    app.start_connect().unwrap();
    assert!(app.on_server_error("refused".to_string(), vec![]));
    assert!(matches!(app.screen, Screen::Lobby(_)));
    let mut app = App::new("http://h".to_string(), Some("u1".to_string()), None);
    app.start_connect().unwrap();
    app.on_disconnected("http://h".to_string(), "/room/ua".to_string(), vec![]);
    match &app.screen {
        Screen::Lobby(l) => assert_eq!(l.error_message.as_deref(), Some("Connection closed before completing")),
        _ => panic!("not in the lobby"),
    }
}

#[test]
fn moves_are_framed_as_game_actions() {
    match make_game_action(b"{\"Pass\":null}".to_vec(), 9) {
        ActionData::GameAction(g) => {
            assert_eq!(g.ref_version, 9);
            assert_eq!(g.message.codec, "json");
            assert_eq!(g.message.data_type.kind, "action");
            assert_eq!(g.message.data_type.app.id, "doudizhu");
            assert_eq!(g.message.data.0, b"{\"Pass\":null}".to_vec());
        }
        other => panic!("unexpected {:?}", other),
    }
}

#[test]
fn status_line_prompts_follow_the_turn() {
    let mut gs = playing_table();
    let game = gs.game.clone().unwrap();
    assert_eq!(status_prompt(&gs, &game), Prompt::FreePlay);
    gs.bid_mode = true;
    let mut bidding = game.clone();
    bidding.stage = Stage::Bidding;
    gs.game = Some(bidding.clone());
    assert_eq!(status_prompt(&gs, &bidding), Prompt::BidDigits);
    gs.bid_mode = false;
    assert_eq!(status_prompt(&gs, &bidding), Prompt::Bid);
    let mut other = game.clone();
    other.current_turn = 2;
    gs.game = Some(other.clone());
    assert_eq!(status_prompt(&gs, &other), Prompt::Waiting(2));
}

#[test]
fn table_helpers_name_and_color() {
    assert_eq!(neighbours(0), (1, 2));
    assert_eq!(neighbours(2), (0, 1));
    assert_eq!(stage_key(Stage::Setup), "stage-waiting");
    assert_eq!(stage_key(Stage::Finished), "stage-finished");
    assert_eq!(role_key(Role::Landlord), "role-landlord");
    assert_eq!(role_key(Role::Undecided), "role-undecided");
    assert_eq!(card_color(&nc(Suit::Hearts, Rank::Two)), (CardColor::Red, false));
    assert_eq!(card_color(&nc(Suit::Clubs, Rank::Two)), (CardColor::White, false));
    assert_eq!(card_color(&Card::RedJoker), (CardColor::Red, true));
    assert_eq!(card_color(&Card::BlackJoker), (CardColor::White, true));
    assert_eq!(card_color(&Card::WildCard), (CardColor::Magenta, false));
    let gs = playing_table();
    let mut game = gs.game.unwrap();
    assert_eq!(player_index(&game, &game.players[2].clone()), 2);
    game.winner = Some(1);
    game.landlord_idx = Some(1);
    assert!(landlord_won(&game));
    game.landlord_idx = Some(0);
    assert!(!landlord_won(&game));
}

#[test]
fn log_levels_and_scrolling() {
    assert_eq!(LogLevel::Info.label(), " INFO");
    assert_eq!(LogLevel::Error.label(), "ERROR");
    assert_eq!(LogLevel::Warn.label(), " WARN");
    assert_eq!(scroll_from_top(10, 20, 3), 0);
    assert_eq!(scroll_from_top(30, 10, 0), 20);
    assert_eq!(scroll_from_top(30, 10, 5), 15);
    assert_eq!(scroll_from_top(30, 10, 99), 0);
}

#[test]
fn views_are_framed_as_game_state() {
    let t = state_message(vec![1, 2]);
    assert_eq!(t.data_type.kind, "doudizhu_state");
    assert_eq!(t.codec, "json");
    assert_eq!(t.data.0, vec![1, 2]);
}

#[test]
fn sign_in_uses_key_file_then_default_identity_then_token() {
    let mut app = App::new("http://h".to_string(), None, None);
    app.pending_key_file = Some("/keys/a.json".to_string());
    app.pending_nickname = Some("amy".to_string());
    assert!(matches!(sign_in_plan(&app, "typed", false), SignIn::KeyFile(ref k) if k == "/keys/a.json"));
    app.pending_key_file = None;
    assert!(matches!(sign_in_plan(&app, "typed", false), SignIn::DefaultIdentity(ref n) if n == "amy"));
    app.pending_nickname = None;
    assert!(matches!(sign_in_plan(&app, "typed", false), SignIn::DefaultIdentity(ref n) if n == "typed"));
    assert!(matches!(sign_in_plan(&app, "typed", true), SignIn::Token(ref t) if t == "typed"));
    assert!(matches!(sign_in_plan(&app, "", false), SignIn::Token(ref t) if t.is_empty()));
}
