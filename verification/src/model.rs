//! The data model: the board and the pieces that stand on it.

pub mod board;
pub mod piece;
