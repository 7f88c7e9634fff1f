pub mod poker;
pub mod auth;
pub mod basic;
pub mod doudizhu;
pub mod holdem;
pub mod host;
pub mod identity;
pub mod mahjong;
pub mod tui;
