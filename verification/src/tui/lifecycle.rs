//! What the client does when its connection to the server opens, fails, drops, or when
//! the clock ticks while it is connecting again.

use vstd::prelude::*;
use crate::basic::message::TypedData;
use crate::basic::user::{ActionData, GameActionData, JoinRoom, RoomActionData};
use crate::doudizhu::game::{get_app, APP_ID, APP_REVISION};
use crate::tui::app::{first_profile, App, GameState, IdentityProfile, Screen, after_msg, msgs_view};

verus! {

/// The message shown when the connection closed before it opened.
pub open spec fn closed_early_text() -> Seq<char> {
    "Connection closed before completing"@
}

/// The room action announcing this user, with the user id as nickname.
pub open spec fn is_join(a: ActionData, user_id: Seq<char>) -> bool {
    a matches ActionData::RoomAction(RoomActionData::Join(j)) && j.nickname@ == user_id
}

/// The lobby the client goes back to: no server address, the error if any, and the
/// default identity among `profiles`.
pub open spec fn back_at_lobby(new: App, old: App, error: Option<Seq<char>>, profiles: Seq<IdentityProfile>) -> bool {
    &&& new.screen matches Screen::Lobby(l) && l.server_url@.len() == 0 && l.focus == 0
        && l.selected_identity == first_profile(profiles) && match error {
            Some(e) => l.error_message matches Some(m) && m@ == e,
            None => l.error_message is None,
        }
    &&& new.pending_user_id is None && new.pending_key_file is None && new.pending_nickname is None
    &&& new.current_key_file is None && new.current_nickname is None
    &&& new.log_mode == old.log_mode && new.log_scroll == old.log_scroll
}

/// How the client signs in to the server.
#[derive(Debug, Clone)]
pub enum SignIn {
    /// With the identity saved in this key file.
    KeyFile(String),
    /// With the identity of the default directory, created under this nickname if there
    /// is none.
    DefaultIdentity(String),
    /// With the typed user id itself as the bearer token.
    Token(String),
}

/// How to sign in: with the key file of the chosen identity; else, when no user id is
/// configured and one was typed, with the default directory's identity (named after the
/// chosen nickname, else the typed id); else with the typed id as the token.
pub open spec fn signs_in_with(
    s: SignIn,
    key_file: Option<String>,
    configured_user_id: bool,
    typed_user_id: Seq<char>,
    nickname: Option<String>,
) -> bool {
    match key_file {
        Some(k) => s matches SignIn::KeyFile(f) && f@ == k@,
        None => if !configured_user_id && typed_user_id.len() > 0 {
            s matches SignIn::DefaultIdentity(n) && n@ == match nickname {
                Some(p) => p@,
                None => typed_user_id,
            }
        } else {
            s matches SignIn::Token(u) && u@ == typed_user_id
        },
    }
}

/// How the client signs in, from the identity chosen in the lobby, whether a user id
/// was configured, and the user id typed.
pub fn sign_in_plan(app: &App, typed_user_id: &str, configured_user_id: bool) -> (s: SignIn)
    ensures
        signs_in_with(s, app.pending_key_file, configured_user_id, typed_user_id@, app.pending_nickname),
{
    match &app.pending_key_file {
        Some(k) => SignIn::KeyFile(k.clone()),
        None => {
            if !configured_user_id && typed_user_id.unicode_len() > 0 {
                let nickname = match &app.pending_nickname {
                    Some(n) => n.clone(),
                    None => String::from_str(typed_user_id),
                };
                SignIn::DefaultIdentity(nickname)
            } else {
                SignIn::Token(String::from_str(typed_user_id))
            }
        },
    }
}

impl App {
    /// The connection opened. When connecting, the table is shown; when connecting
    /// again, the kept table is shown again. Either way the action announcing the user
    /// to the room is returned, to be sent; on other screens nothing happens.
    pub fn on_connected(&mut self, profiles: Vec<IdentityProfile>) -> (r: Option<ActionData>)
        ensures
            match old(self).screen {
                Screen::Connecting => match old(self).pending_user_id {
                    Some(u) => (r matches Some(a) && is_join(a, u@)) && (final(self).screen matches Screen::Game(gs)
                        && gs.my_user_id@ == u@ && gs.game is None),
                    None => r is None && final(self).screen == old(self).screen,
                },
                Screen::Reconnecting(rs) => r matches Some(a) && is_join(a, rs.game_state.my_user_id@)
                    && final(self).screen == Screen::Game(rs.game_state) && final(self).pending_key_file is None
                    && final(self).pending_nickname is None,
                _ => r is None && *final(self) == *old(self),
            },
    {
        match &self.screen {
            Screen::Connecting => {
                let uid = match &self.pending_user_id {
                    Some(u) => Some(u.clone()),
                    None => None,
                };
                self.connected();
                match uid {
                    Some(u) => Some(ActionData::RoomAction(RoomActionData::Join(JoinRoom { nickname: u }))),
                    None => None,
                }
            },
            Screen::Reconnecting(rs) => {
                let uid = rs.game_state.my_user_id.clone();
                self.reconnected(profiles);
                Some(ActionData::RoomAction(RoomActionData::Join(JoinRoom { nickname: uid })))
            },
            _ => None,
        }
    }

    /// The server reported an error. When connecting, the connection failed (true is
    /// returned: the stream is to be dropped); at the table the error is shown among the
    /// messages; when connecting again it is kept as the last error.
    pub fn on_server_error(&mut self, error: String, profiles: Vec<IdentityProfile>) -> (drop_stream: bool)
        ensures
            drop_stream == (old(self).screen is Connecting),
            match old(self).screen {
                Screen::Connecting => back_at_lobby(*final(self), *old(self), Some(error@), profiles@),
                Screen::Game(gs) => final(self).screen matches Screen::Game(g2)
                    && msgs_view(g2.messages@) == after_msg(msgs_view(gs.messages@), "Error: "@ + error@)
                    && g2 == (GameState { messages: g2.messages, ..gs }),
                Screen::Reconnecting(rs) => final(self).screen matches Screen::Reconnecting(r2)
                    && r2.last_error == Some(error) && r2.attempts == rs.attempts
                    && r2.game_state == rs.game_state && r2.max_attempts == rs.max_attempts,
                _ => *final(self) == *old(self),
            },
    {
        match &mut self.screen {
            Screen::Connecting => {
                self.connection_failed(error, profiles);
                true
            },
            Screen::Game(gs) => {
                let mut text = String::from_str("Error: ");
                text.append(error.as_str());
                gs.push_message(text);
                false
            },
            Screen::Reconnecting(rs) => {
                rs.last_error = Some(error);
                false
            },
            _ => false,
        }
    }

    /// The connection dropped (the stream is to be dropped in every case). Connecting,
    /// it failed; at a table showing a game, the client starts connecting again to
    /// `server_url` and `room_path`; at a table without a game it goes back to the lobby;
    /// connecting again, the attempt counts as failed.
    pub fn on_disconnected(&mut self, server_url: String, room_path: String, profiles: Vec<IdentityProfile>)
        ensures
            match old(self).screen {
                Screen::Connecting => back_at_lobby(*final(self), *old(self), Some(closed_early_text()), profiles@),
                Screen::Game(gs) => if gs.game is Some {
                    final(self).screen matches Screen::Reconnecting(rs) && rs.game_state == gs
                        && rs.server_url == server_url && rs.room_path == room_path && rs.attempts == 0
                        && rs.max_attempts == 10 && rs.last_error is None
                        && final(self).pending_key_file == old(self).current_key_file
                        && final(self).pending_nickname == old(self).current_nickname
                } else {
                    back_at_lobby(*final(self), *old(self), Some("Server disconnected"@), profiles@)
                },
                Screen::Reconnecting(rs) => final(self).screen matches Screen::Reconnecting(r2)
                    && r2.attempts == (if rs.attempts < u32::MAX { rs.attempts + 1 } else { rs.attempts as int })
                    && r2.last_error == (if rs.last_error is Some { rs.last_error } else { r2.last_error })
                    && (rs.last_error is None ==> (r2.last_error matches Some(e) && e@ == "Connection closed"@))
                    && r2.game_state == rs.game_state && r2.max_attempts == rs.max_attempts
                    && r2.server_url == rs.server_url && r2.room_path == rs.room_path,
                _ => *final(self) == *old(self),
            },
    {
        let has_game = match &self.screen {
            Screen::Game(gs) => Some(gs.game.is_some()),
            _ => None,
        };
        match has_game {
            Some(true) => {
                self.go_to_reconnecting(server_url, room_path, profiles);
                return;
            },
            Some(false) => {
                self.go_to_lobby(Some(String::from_str("Server disconnected")), profiles);
                return;
            },
            None => {},
        }
        match &mut self.screen {
            Screen::Connecting => {
                self.connection_failed(String::from_str("Connection closed before completing"), profiles);
            },
            Screen::Reconnecting(rs) => {
                if rs.attempts < u32::MAX {
                    rs.attempts = rs.attempts + 1;
                }
                if rs.last_error.is_none() {
                    rs.last_error = Some(String::from_str("Connection closed"));
                }
            },
            _ => {},
        }
    }

    /// The clock ticked. Connecting again: after the last allowed attempt the client goes
    /// back to the lobby; otherwise, when no attempt is under way (`attempting` is
    /// false), the server address, room path and user id to try again with are returned.
    pub fn on_tick(&mut self, attempting: bool, profiles: Vec<IdentityProfile>) -> (r: Option<(String, String, String)>)
        ensures
            match old(self).screen {
                Screen::Reconnecting(rs) => if rs.attempts >= rs.max_attempts {
                    r is None && back_at_lobby(*final(self), *old(self), Some("Reconnection failed after max attempts"@), profiles@)
                } else if !attempting {
                    r matches Some(t) && t.0 == rs.server_url && t.1 == rs.room_path
                        && t.2 == rs.game_state.my_user_id && *final(self) == *old(self)
                } else {
                    r is None && *final(self) == *old(self)
                },
                _ => r is None && *final(self) == *old(self),
            },
    {
        let target = match &self.screen {
            Screen::Reconnecting(rs) => {
                if rs.attempts >= rs.max_attempts {
                    None
                } else if !attempting {
                    Some(Some((rs.server_url.clone(), rs.room_path.clone(), rs.game_state.my_user_id.clone())))
                } else {
                    Some(None)
                }
            },
            _ => return None,
        };
        match target {
            None => {
                self.go_to_lobby(Some(String::from_str("Reconnection failed after max attempts")), profiles);
                None
            },
            Some(t) => t,
        }
    }

    /// An attempt to connect again failed before the stream opened: the error is kept
    /// and the attempt counts.
    pub fn reconnect_failed(&mut self, error: String)
        ensures
            match old(self).screen {
                Screen::Reconnecting(rs) => final(self).screen matches Screen::Reconnecting(r2)
                    && r2.last_error == Some(error)
                    && r2.attempts == (if rs.attempts < u32::MAX { rs.attempts + 1 } else { rs.attempts as int })
                    && r2.game_state == rs.game_state && r2.max_attempts == rs.max_attempts
                    && r2.server_url == rs.server_url && r2.room_path == rs.room_path,
                _ => *final(self) == *old(self),
            },
    {
        if let Screen::Reconnecting(rs) = &mut self.screen {
            rs.last_error = Some(error);
            if rs.attempts < u32::MAX {
                rs.attempts = rs.attempts + 1;
            }
        }
    }
}

/// A move in the game as the room carries it: the move's JSON bytes, typed as this
/// game's "action" in the "json" codec, against the version of the game state it was
/// made on.
pub fn make_game_action(action_json: Vec<u8>, ref_version: u32) -> (a: ActionData)
    ensures
        a matches ActionData::GameAction(g) && g.ref_version == ref_version && g.message.data.0@ == action_json@
            && g.message.codec@ == "json"@ && g.message.data_type.kind@ == "action"@
            && g.message.data_type.app.id@ == APP_ID@ && g.message.data_type.app.revision == APP_REVISION,
{
    let message = TypedData {
        data_type: crate::basic::message::DataType { app: get_app(), kind: String::from_str("action") },
        codec: String::from_str("json"),
        data: crate::basic::message::Data(action_json),
    };
    ActionData::GameAction(GameActionData { message, ref_version })
}

/// A view of the game as the room carries it: the game's JSON bytes, typed as this
/// game's "doudizhu_state" in the "json" codec.
pub fn state_message(state_json: Vec<u8>) -> (t: TypedData)
    ensures
        t.data.0@ == state_json@,
        t.codec@ == "json"@,
        t.data_type.kind@ == "doudizhu_state"@,
        t.data_type.app.id@ == APP_ID@,
        t.data_type.app.revision == APP_REVISION,
{
    TypedData {
        data_type: crate::basic::message::DataType { app: get_app(), kind: String::from_str("doudizhu_state") },
        codec: String::from_str("json"),
        data: crate::basic::message::Data(state_json),
    }
}

} // verus!
