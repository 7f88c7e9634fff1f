//! Players as seen by the table games that identify them by raw bytes.

use vstd::prelude::*;
use crate::basic::room::RoomPlayerPosition;

verus! {

/// Identifier of a player: opaque bytes.
#[derive(Debug, Clone, PartialEq, Eq, Hash)]
pub struct PlayerId(pub Vec<u8>);

impl PlayerId {
    pub fn from_bytes(bytes: Vec<u8>) -> (id: PlayerId)
        ensures
            id.0@ == bytes@,
    {
        PlayerId(bytes)
    }
}

/// A participant of a table game.
#[derive(Debug, Clone, PartialEq, Eq, Hash)]
pub struct Player {
    pub nickname: String,
    pub id: PlayerId,
    pub avatar_url: Option<String>,
    pub is_bot: bool,
}

/// A player, as values.
pub struct PlayerProfile {
    pub nickname: Seq<char>,
    pub id: Seq<u8>,
    pub avatar_url: Option<Seq<char>>,
    pub is_bot: bool,
}

impl View for Player {
    type V = PlayerProfile;

    open spec fn view(&self) -> PlayerProfile {
        PlayerProfile {
            nickname: self.nickname@,
            id: self.id.0@,
            avatar_url: match self.avatar_url {
                Some(u) => Some(u@),
                None => None,
            },
            is_bot: self.is_bot,
        }
    }
}

impl PlayerId {
    /// A copy of the id.
    pub fn copy(&self) -> (r: PlayerId)
        ensures
            r.0@ == self.0@,
    {
        let mut bytes: Vec<u8> = Vec::new();
        let n = self.0.len();
        for i in 0..n
            invariant
                n == self.0@.len(),
                bytes@ == self.0@.take(i as int),
        {
            bytes.push(self.0[i]);
            assert(self.0@.take(i + 1) =~= self.0@.take(i as int).push(self.0@[i as int]));
        }
        assert(self.0@.take(n as int) =~= self.0@);
        PlayerId(bytes)
    }
}

impl Player {
    /// A copy of the player.
    pub fn copy(&self) -> (p: Player)
        ensures
            p@ == self@,
    {
        let avatar_url = match &self.avatar_url {
            Some(u) => Some(u.clone()),
            None => None,
        };
        Player { nickname: self.nickname.clone(), id: self.id.copy(), avatar_url, is_bot: self.is_bot }
    }

    /// A bot player with the given nickname and id.
    pub fn new_robot(nickname: String, id: PlayerId) -> (p: Player)
        ensures
            p.nickname == nickname,
            p.id == id,
            p.avatar_url is None,
            p.is_bot,
    {
        Player { nickname, id, avatar_url: None, is_bot: true }
    }
}

/// Request to sit at a position.
#[derive(Debug, Clone)]
pub struct BecomePlayer {
    pub position: RoomPlayerPosition,
}

/// Failure of a player agent.
#[derive(Debug, Clone, Copy, PartialEq, Eq)]
pub enum PlayerAgentError {
    MessageHandlingFailed,
}

} // verus!
