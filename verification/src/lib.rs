//! A self-playing chess engine: board model, per-piece move generation,
//! legality filtering, draw detection, position evaluation and move search.

pub mod game;
pub mod model;
pub mod utils;
