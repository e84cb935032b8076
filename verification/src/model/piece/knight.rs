use vstd::prelude::*;
use crate::game::play::HalfMove;
use crate::model::board::board::{Board, BoardView};
use crate::model::board::square::Square;
use crate::model::piece::color::Colour;
use crate::model::piece::piece::{step_moves, Piece, PieceType};

verus! {

/// A knight of one side.
#[derive(Debug, Copy, Clone, Hash)]
pub struct Knight {
    pub colour: Colour,
}

impl Knight {
    pub fn new(colour: Colour) -> (piece: Knight)
        ensures
            piece.colour == colour,
    {
        Knight { colour }
    }
}

/// The candidate moves of a knight: its eight leaps, quadrant by quadrant.
pub open spec fn knight_moves(board: BoardView, piece: PieceType, origin: Square) -> Seq<HalfMove> {
    step_moves(board, piece, origin, 1, 2)
        + step_moves(board, piece, origin, 2, 1)
        + step_moves(board, piece, origin, 2, -1)
        + step_moves(board, piece, origin, 1, -2)
        + step_moves(board, piece, origin, -1, -2)
        + step_moves(board, piece, origin, -2, -1)
        + step_moves(board, piece, origin, -2, 1)
        + step_moves(board, piece, origin, -1, 2)
}

impl Piece for Knight {
    open spec fn kind(&self) -> PieceType {
        PieceType::Knight(*self)
    }

    fn get_type(&self) -> (piece: PieceType)
        ensures
            piece == PieceType::Knight(*self),
    {
        PieceType::Knight(*self)
    }

    fn get_symbol(&self) -> (symbol: char)
        ensures
            symbol == 'N',
    {
        'N'
    }

    fn get_value(&self) -> (value: u8)
        ensures
            value == 3,
    {
        3
    }

    fn get_colour(&self) -> (colour: Colour)
        ensures
            colour == self.colour,
    {
        self.colour
    }

    /// A knight keeps no note of its first move: nothing changes.
    fn set_first_move(&mut self, _value: bool)
        ensures
            *final(self) == *old(self),
    {
    }

    fn duplicate(&self) -> (copy: PieceType)
        ensures
            copy == PieceType::Knight(*self),
    {
        PieceType::Knight(Knight::new(self.colour))
    }

    fn available_moves(&self, board: &Board, position: &Square) -> (moves: Vec<HalfMove>)
        ensures
            moves@ == knight_moves(board@, PieceType::Knight(*self), *position),
    {
        let mut moves: Vec<HalfMove> = Vec::new();
        // first quadrant
        moves = self.next_move_single(board, position, moves, 1, 2);
        assert(moves@ =~= step_moves(board@, self.kind(), *position, 1, 2));
        // first quadrant
        moves = self.next_move_single(board, position, moves, 2, 1);
        // second quadrant
        moves = self.next_move_single(board, position, moves, 2, -1);
        // second quadrant
        moves = self.next_move_single(board, position, moves, 1, -2);
        // third quadrant
        moves = self.next_move_single(board, position, moves, -1, -2);
        // third quadrant
        moves = self.next_move_single(board, position, moves, -2, -1);
        // fourth quadrant
        moves = self.next_move_single(board, position, moves, -2, 1);
        // fourth quadrant
        moves = self.next_move_single(board, position, moves, -1, 2);
        moves
    }
}

} // verus!
