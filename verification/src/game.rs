//! The game: scores, moves, and the search for the move to play.

pub mod game;
pub mod play;
pub mod rules;
pub mod score;
pub mod turn;
