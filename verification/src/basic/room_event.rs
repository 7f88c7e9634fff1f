//! Events of a room as reported to player agents.

use vstd::prelude::*;
use crate::basic::room::RoomPlayerPosition;
use crate::basic::user::UserId;

verus! {

/// A chat line of a player.
#[derive(Debug, Clone)]
pub struct PlayerChat {
    pub player_id: UserId,
    pub message: Vec<RoomMessageSegment>,
}

/// The content of a chat line.
#[derive(Debug, Clone)]
pub struct RoomChatMessageContent {
    pub message: Vec<RoomMessageSegment>,
}

/// A piece of a chat line.
#[derive(Debug, Clone)]
pub enum RoomMessageSegment {
    Text(String),
    Emote(String),
}

/// A player entered.
#[derive(Debug, Clone, Copy)]
pub struct PlayerJoin {
    pub player_id: UserId,
}

/// A player left.
#[derive(Debug, Clone, Copy)]
pub struct PlayerLeave {
    pub player_id: UserId,
}

/// A player was removed.
#[derive(Debug, Clone, Copy)]
pub struct PlayerKickedOut {
    pub player_id: UserId,
}

/// A player lost the connection.
#[derive(Debug, Clone, Copy)]
pub struct PlayerDisconnected {
    pub player_id: UserId,
}

/// A player is back.
#[derive(Debug, Clone, Copy)]
pub struct PlayerReconnected {
    pub player_id: UserId,
}

/// A player changed readiness.
#[derive(Debug, Clone, Copy)]
pub struct PlayerReady {
    pub player_id: UserId,
    pub is_ready: bool,
}

/// A player took a seat.
#[derive(Debug, Clone)]
pub struct PlayerBecomePlayer {
    pub player_id: UserId,
    pub position: RoomPlayerPosition,
}

} // verus!
