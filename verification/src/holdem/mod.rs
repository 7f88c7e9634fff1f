pub mod table;
pub mod betting;
pub mod round;
