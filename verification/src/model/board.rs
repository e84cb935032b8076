//! The board and its squares.

pub mod board;
pub mod laws;
pub mod square;
pub mod start;
