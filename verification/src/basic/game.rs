//! What a game asks of the room that hosts it, and what the room tells a game.

use vstd::prelude::*;
use crate::basic::message::{App, TypedData};
use crate::basic::room::RoomPlayerPosition;
use crate::basic::user::Action;

verus! {

/// Identifier of a timer or an interval.
#[derive(Debug, Clone, PartialEq, Eq, Hash)]
pub struct Id(pub String);

impl Id {
    pub fn from_string(s: String) -> (id: Id)
        ensures
            id.0 == s,
    {
        Id(s)
    }
}

/// A request of the game to the room. Durations are whole seconds.
#[derive(Debug, Clone)]
pub enum GameCommand {
    CreateTimer { id: Id, duration_secs: u64 },
    CancelTimer { id: Id, duration_secs: u64 },
    CreateInterval { id: Id },
    CancelInterval { id: Id },
    /// The game has ended; the room goes back to waiting.
    GameOver,
}

/// A timer of the game has run out.
#[derive(Debug, Clone)]
pub struct TimeExpired {
    pub timer_id: Id,
}

/// An interval of the game has ticked.
#[derive(Debug, Clone)]
pub struct Interval {
    pub interval_id: Id,
}

/// What happens to a game.
#[derive(Debug, Clone)]
pub enum GameEvent {
    Action(Action),
    TimerExpired(TimeExpired),
    Interval(Interval),
    GameStart,
}

/// An event with its sequence number.
#[derive(Debug, Clone)]
pub struct SequencedGameUpdate {
    pub event: GameEvent,
    pub seq: u32,
}

/// Description of a game.
#[derive(Debug, Clone)]
pub struct GameMeta {
    pub app: App,
    pub description: String,
}

/// A message from the game to a client.
#[derive(Debug, Clone)]
pub struct ClientEvent {
    pub seq: u32,
    pub message: TypedData,
}

/// A versioned, encoded game state.
#[derive(Debug, Clone)]
pub struct GameState {
    pub version: u32,
    pub data: TypedData,
}

/// What one view of the game receives.
#[derive(Debug, Clone)]
pub struct GameViewUpdate {
    pub events: Vec<ClientEvent>,
    pub new_view: GameState,
}

/// A message was refused.
#[derive(Debug, Clone)]
pub struct MessageRejection {
    pub reason: String,
}

/// Why the server refused a message.
#[derive(Debug, Clone)]
pub enum ServerMessageError {
    Rejected(MessageRejection),
}

/// The seats a game offers.
#[derive(Debug, Clone)]
pub enum PositionSpec {
    Fixed { positions: Vec<RoomPlayerPosition> },
    Flexible { min_players: usize, max_players: usize, default_players: usize },
}

/// A game paired with a bot that proposes default actions.
pub struct WithBotAction<G, B> {
    pub inner: G,
    pub bot: B,
}

} // verus!
