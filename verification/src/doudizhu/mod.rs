pub mod pattern;
pub mod hand;
pub mod game;
pub mod session;
pub mod bot;
