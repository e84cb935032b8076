use vstd::prelude::*;
use crate::game::play::HalfMove;
use crate::model::board::board::{Board, BoardView};
use crate::model::board::square::Square;
use crate::model::piece::color::Colour;
use crate::model::piece::piece::{step_moves, Piece, PieceType};

verus! {

/// A king of one side, with the note whether it has yet to make its first move.
#[derive(Debug, Copy, Clone, Hash)]
pub struct King {
    pub colour: Colour,
    pub first_move: bool,
}

impl King {
    /// A piece that has not moved yet.
    pub fn new(colour: Colour) -> (piece: King)
        ensures
            piece.colour == colour,
            piece.first_move,
    {
        King { colour, first_move: true }
    }
}

/// The candidate moves of a king: one step in each of the eight directions,
/// counter-clockwise from north. Castling is not among them.
pub open spec fn king_moves(board: BoardView, piece: PieceType, origin: Square) -> Seq<HalfMove> {
    step_moves(board, piece, origin, 1, 0)
        + step_moves(board, piece, origin, 1, -1)
        + step_moves(board, piece, origin, 0, -1)
        + step_moves(board, piece, origin, -1, -1)
        + step_moves(board, piece, origin, -1, 0)
        + step_moves(board, piece, origin, -1, 1)
        + step_moves(board, piece, origin, 0, 1)
        + step_moves(board, piece, origin, 1, 1)
}

impl Piece for King {
    open spec fn kind(&self) -> PieceType {
        PieceType::King(*self)
    }

    fn get_type(&self) -> (piece: PieceType)
        ensures
            piece == PieceType::King(*self),
    {
        PieceType::King(*self)
    }

    fn get_symbol(&self) -> (symbol: char)
        ensures
            symbol == 'K',
    {
        'K'
    }

    fn get_value(&self) -> (value: u8)
        ensures
            value == u8::MAX,
    {
        u8::MAX
    }

    fn get_colour(&self) -> (colour: Colour)
        ensures
            colour == self.colour,
    {
        self.colour
    }

    fn set_first_move(&mut self, value: bool)
        ensures
            *final(self) == (King { colour: old(self).colour, first_move: value }),
    {
        self.first_move = value;
    }

    fn duplicate(&self) -> (copy: PieceType)
        ensures
            copy == PieceType::King(*self),
    {
        let mut copy = King::new(self.colour);
        copy.set_first_move(self.first_move);
        PieceType::King(copy)
    }

    fn available_moves(&self, board: &Board, position: &Square) -> (moves: Vec<HalfMove>)
        ensures
            moves@ == king_moves(board@, PieceType::King(*self), *position),
    {
        let mut moves: Vec<HalfMove> = Vec::new();
        // north
        moves = self.next_move_single(board, position, moves, 1, 0);
        assert(moves@ =~= step_moves(board@, self.kind(), *position, 1, 0));
        // north-west
        moves = self.next_move_single(board, position, moves, 1, -1);
        // west
        moves = self.next_move_single(board, position, moves, 0, -1);
        // south-west
        moves = self.next_move_single(board, position, moves, -1, -1);
        // south
        moves = self.next_move_single(board, position, moves, -1, 0);
        // south-east
        moves = self.next_move_single(board, position, moves, -1, 1);
        // east
        moves = self.next_move_single(board, position, moves, 0, 1);
        // north-east
        moves = self.next_move_single(board, position, moves, 1, 1);
        moves
    }
}

} // verus!
