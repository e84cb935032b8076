use vstd::prelude::*;
use crate::game::play::HalfMove;
use crate::model::board::board::{Board, BoardView};
use crate::model::board::square::Square;
use crate::model::piece::color::Colour;
use crate::model::piece::piece::{ray_moves, Piece, PieceType};

verus! {

/// A rook of one side, with the note whether it has yet to make its first move.
#[derive(Debug, Copy, Clone, Hash)]
pub struct Rook {
    pub colour: Colour,
    pub first_move: bool,
}

impl Rook {
    /// A piece that has not moved yet.
    pub fn new(colour: Colour) -> (piece: Rook)
        ensures
            piece.colour == colour,
            piece.first_move,
    {
        Rook { colour, first_move: true }
    }
}

/// The candidate moves of a rook: its slides along the rank and the file, north,
/// west, south and east in turn.
pub open spec fn rook_moves(board: BoardView, piece: PieceType, origin: Square) -> Seq<HalfMove> {
    ray_moves(board, piece, origin, origin, 1, 0)
        + ray_moves(board, piece, origin, origin, 0, -1)
        + ray_moves(board, piece, origin, origin, -1, 0)
        + ray_moves(board, piece, origin, origin, 0, 1)
}

impl Piece for Rook {
    open spec fn kind(&self) -> PieceType {
        PieceType::Rook(*self)
    }

    fn get_type(&self) -> (piece: PieceType)
        ensures
            piece == PieceType::Rook(*self),
    {
        PieceType::Rook(*self)
    }

    fn get_symbol(&self) -> (symbol: char)
        ensures
            symbol == 'R',
    {
        'R'
    }

    fn get_value(&self) -> (value: u8)
        ensures
            value == 5,
    {
        5
    }

    fn get_colour(&self) -> (colour: Colour)
        ensures
            colour == self.colour,
    {
        self.colour
    }

    fn set_first_move(&mut self, value: bool)
        ensures
            *final(self) == (Rook { colour: old(self).colour, first_move: value }),
    {
        self.first_move = value;
    }

    fn duplicate(&self) -> (copy: PieceType)
        ensures
            copy == PieceType::Rook(*self),
    {
        let mut copy = Rook::new(self.colour);
        copy.set_first_move(self.first_move);
        PieceType::Rook(copy)
    }

    fn available_moves(&self, board: &Board, position: &Square) -> (moves: Vec<HalfMove>)
        ensures
            moves@ == rook_moves(board@, PieceType::Rook(*self), *position),
    {
        let mut moves: Vec<HalfMove> = Vec::new();
        // north
        moves = self.next_move_recursive(board, position, position, moves, false, 1, 0);
        assert(moves@ =~= ray_moves(board@, self.kind(), *position, *position, 1, 0));
        // west
        moves = self.next_move_recursive(board, position, position, moves, false, 0, -1);
        // south
        moves = self.next_move_recursive(board, position, position, moves, false, -1, 0);
        // east
        moves = self.next_move_recursive(board, position, position, moves, false, 0, 1);
        moves
    }
}

} // verus!
