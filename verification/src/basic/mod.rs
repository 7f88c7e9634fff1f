pub mod message;
pub mod user;
pub mod game;
pub mod room;
pub mod room_event;
pub mod player;
