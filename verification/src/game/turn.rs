use vstd::prelude::*;
use crate::game::play::FullMove;

verus! {

/// One turn of a game: its number, counted from 1, and its two moves.
#[derive(Debug, Copy, Clone)]
pub struct Turn {
    pub index: u8,
    pub moves: FullMove,
}

impl Turn {
    pub fn new(index: u8, moves: FullMove) -> (turn: Turn)
        ensures
            turn.index == index,
            turn.moves == moves,
    {
        Turn { index, moves }
    }

    pub fn get_index(&self) -> (index: u8)
        ensures
            index == self.index,
    {
        self.index
    }

    pub fn get_moves(&self) -> (moves: &FullMove)
        ensures
            *moves == self.moves,
    {
        &self.moves
    }
}

} // verus!
