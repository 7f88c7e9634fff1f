//! Users, their identifiers and the actions they send to a room.

use vstd::prelude::*;
use base64::Engine;
use rand::RngCore;
use crate::basic::message::TypedData;
use crate::basic::room::{RoomPlayerPosition, RoomUserPosition};

verus! {

/// Length of a user id in bytes: the length of an ed25519 public key.
pub const USER_ID_LEN: usize = 32;

/// The standard base64 text (with padding) of some bytes.
pub uninterp spec fn base64_text(bytes: Seq<u8>) -> Seq<char>;

/// The bytes that a standard base64 text decodes to, or `None` where the text is not
/// valid standard base64.
pub uninterp spec fn base64_bytes(text: Seq<char>) -> Option<Seq<u8>>;

/// The error of `base64`'s decoder.
#[verifier::external_type_specification]
#[verifier::external_body]
pub struct ExDecodeError(base64::DecodeError);

/// Encodes bytes with `base64::prelude::BASE64_STANDARD`.
/// Claims that the text is the named standard base64 text of the bytes, and that
/// decoding it gives the bytes back.
#[verifier::external_body]
pub(crate) fn base64_encode(bytes: &[u8]) -> (s: String)
    ensures
        s@ == base64_text(bytes@),
        base64_bytes(s@) == Some(bytes@),
{
    base64::prelude::BASE64_STANDARD.encode(bytes)
}

/// Decodes a text with `base64::prelude::BASE64_STANDARD`.
/// Claims that it succeeds exactly when the named decoding exists, with those bytes.
#[verifier::external_body]
pub(crate) fn base64_decode(s: &str) -> (r: Result<Vec<u8>, base64::DecodeError>)
    ensures
        r is Ok <==> base64_bytes(s@) is Some,
        r matches Ok(v) ==> base64_bytes(s@) == Some(v@),
{
    base64::prelude::BASE64_STANDARD.decode(s)
}

/// Fills 32 bytes from the thread-local random generator of `rand`.
/// Nothing is claimed of the bytes: they are chance.
#[verifier::external_body]
pub(crate) fn random_bytes() -> (b: [u8; 32]) {
    let mut bytes = [0u8; 32];
    rand::rng().fill_bytes(&mut bytes);
    bytes
}

/// A user's identity: the 32 bytes of an ed25519 public key.
#[derive(Debug, Clone, Copy, PartialEq, Eq, Hash)]
pub struct UserId([u8; 32]);

impl View for UserId {
    type V = Seq<u8>;

    closed spec fn view(&self) -> Seq<u8> {
        self.0@
    }
}

/// Why a text is not a user id.
#[derive(Debug)]
pub enum UserIdParseError {
    Base64Error(base64::DecodeError),
    InvalidLength { expected: usize, got: usize },
}

impl UserId {
    /// A user id of random bytes.
    pub fn random() -> (id: UserId)
        ensures
            id@.len() == 32,
    {
        UserId(random_bytes())
    }

    /// The user id of the given bytes.
    pub fn from_bytes(bytes: [u8; 32]) -> (id: UserId)
        ensures
            id@ == bytes@,
    {
        UserId(bytes)
    }

    /// The bytes of the user id.
    pub fn as_bytes(&self) -> (b: &[u8; 32])
        ensures
            b@ == self@,
    {
        &self.0
    }

    pub proof fn lemma_len(&self)
        ensures
            self@.len() == 32,
    {
    }

    /// User ids with the same bytes are the same.
    pub proof fn lemma_view_eq(a: UserId, b: UserId)
        requires
            a@ == b@,
        ensures
            a == b,
    {
        assert(a.0 =~= b.0);
    }

    /// Whether two user ids are the same.
    pub fn same(&self, other: &UserId) -> (r: bool)
        ensures
            r == (*self == *other),
    {
        let mut i: usize = 0;
        while i < 32
            invariant
                i <= 32,
                forall|j: int| 0 <= j < i ==> self.0@[j] == other.0@[j],
            decreases 32 - i,
        {
            if self.0[i] != other.0[i] {
                return false;
            }
            i = i + 1;
        }
        proof {
            assert(self.0 =~= other.0);
        }
        true
    }

    /// The standard base64 text of the id.
    pub fn to_base64(&self) -> (s: String)
        ensures
            s@ == base64_text(self@),
            base64_bytes(s@) == Some(self@),
    {
        base64_encode(&self.0)
    }

    /// The user id that a standard base64 text spells. The text must decode to exactly
    /// 32 bytes.
    pub fn parse(s: &str) -> (r: Result<UserId, UserIdParseError>)
        ensures
            base64_bytes(s@) is None ==> r matches Err(UserIdParseError::Base64Error(_)),
            base64_bytes(s@) matches Some(b) ==> {
                if b.len() == 32 {
                    r matches Ok(id) && id@ == b
                } else {
                    r == Err::<UserId, UserIdParseError>(
                        UserIdParseError::InvalidLength { expected: 32, got: b.len() as usize },
                    )
                }
            },
    {
        let decoded = match base64_decode(s) {
            Ok(d) => d,
            Err(e) => return Err(UserIdParseError::Base64Error(e)),
        };
        if decoded.len() != 32 {
            return Err(UserIdParseError::InvalidLength { expected: 32, got: decoded.len() });
        }
        let mut bytes = [0u8; 32];
        let mut i: usize = 0;
        while i < 32
            invariant
                i <= 32,
                decoded@.len() == 32,
                forall|j: int| 0 <= j < i ==> bytes@[j] == decoded@[j],
            decreases 32 - i,
        {
            bytes.set(i, decoded[i]);
            i = i + 1;
        }
        assert(bytes@ =~= decoded@);
        Ok(UserId(bytes))
    }
}

/// Who sent an action: a user or the system.
#[derive(Debug, Clone)]
pub enum ActionSource {
    User(UserId),
    System,
}

/// An action a user sends to a room.
#[derive(Debug, Clone)]
pub struct Action {
    pub source: ActionSource,
    pub data: ActionData,
}

/// The payload of an action: about the room, or about the game.
#[derive(Debug, Clone)]
pub enum ActionData {
    RoomAction(RoomActionData),
    GameAction(GameActionData),
}

impl ActionData {
    /// The action of this payload sent by `source`.
    pub fn with_source(self, source: ActionSource) -> (a: Action)
        ensures
            a.source == source,
            a.data == self,
    {
        Action { source, data: self }
    }
}

impl Action {
    /// The user who sent the action, if a user did.
    pub fn source(&self) -> (r: Option<&UserId>)
        ensures
            self.source matches ActionSource::User(u) ==> r == Some(&u),
            self.source is System ==> r is None,
    {
        match &self.source {
            ActionSource::User(user_id) => Some(user_id),
            ActionSource::System => None,
        }
    }
}

/// A game move, encoded for the game, with the game state version it was made against.
#[derive(Debug, Clone)]
pub struct GameActionData {
    pub message: TypedData,
    pub ref_version: u32,
}

/// A person or bot known to the room.
#[derive(Debug, Clone, PartialEq, Eq, Hash)]
pub struct User {
    pub nickname: String,
    pub id: UserId,
    pub avatar_url: Option<String>,
    pub is_bot: bool,
}

impl User {
    /// A bot user with the given nickname and id.
    pub fn new_robot(nickname: String, id: UserId) -> (u: User)
        ensures
            u.nickname == nickname,
            u.id == id,
            u.avatar_url is None,
            u.is_bot,
    {
        User { nickname, id, avatar_url: None, is_bot: true }
    }

    /// A copy of the user.
    pub fn copy(&self) -> (u: User)
        ensures
            u == *self,
    {
        let avatar_url = match &self.avatar_url {
            Some(url) => Some(url.clone()),
            None => None,
        };
        User { nickname: self.nickname.clone(), id: self.id, avatar_url, is_bot: self.is_bot }
    }
}

/// Failure of a user agent.
#[derive(Debug, Clone, Copy, PartialEq, Eq)]
pub enum UserAgentError {
    MessageHandlingFailed,
}

/// What a user asks of the room.
#[derive(Debug, Clone)]
pub enum RoomActionData {
    Join(JoinRoom),
    Chat(Chat),
    ChangeReadyState(ReadyStateChange),
    PositionChange(PositionChange),
    RoomManage(RoomManage),
    Reconnect,
    Leave,
}

/// Move from one place in the room to another.
#[derive(Debug, Clone)]
pub struct PositionChange {
    pub from: RoomUserPosition,
    pub to: RoomUserPosition,
}

/// Remove a user from the room.
#[derive(Debug, Clone)]
pub struct KickOut {
    pub player: UserId,
    pub reason: Option<String>,
}

/// Seat a bot at a position.
#[derive(Debug, Clone)]
pub struct AddBot {
    pub position: RoomPlayerPosition,
    pub name: Option<String>,
}

/// What the room's owner may do.
#[derive(Debug, Clone)]
pub enum RoomManage {
    KickOut(KickOut),
    SetGameConfig(TypedData),
    SetRoomConfig,
    AddBot(AddBot),
    StartGame,
}

/// Ready or not for the next game.
#[derive(Debug, Clone, Copy)]
pub struct ReadyStateChange {
    pub is_ready: bool,
}

/// Enter the room under a nickname.
#[derive(Debug, Clone)]
pub struct JoinRoom {
    pub nickname: String,
}

/// A chat message.
#[derive(Debug, Clone)]
pub struct Chat {
    pub message: Vec<RoomMessageSegment>,
}

/// A piece of a chat message.
#[derive(Debug, Clone)]
pub enum RoomMessageSegment {
    Text(String),
    Emote(String),
}

} // verus!
