use vstd::prelude::*;
use crate::game::play::HalfMove;
use crate::model::board::board::{Board, BoardView};
use crate::model::board::square::Square;
use crate::model::piece::color::Colour;
use crate::model::piece::piece::{ray_moves, Piece, PieceType};

verus! {

/// A bishop of one side.
#[derive(Debug, Copy, Clone, Hash)]
pub struct Bishop {
    pub colour: Colour,
}

impl Bishop {
    pub fn new(colour: Colour) -> (piece: Bishop)
        ensures
            piece.colour == colour,
    {
        Bishop { colour }
    }
}

/// The candidate moves of a bishop: its slides along the four diagonals in turn.
pub open spec fn bishop_moves(board: BoardView, piece: PieceType, origin: Square) -> Seq<HalfMove> {
    ray_moves(board, piece, origin, origin, 1, 1)
        + ray_moves(board, piece, origin, origin, 1, -1)
        + ray_moves(board, piece, origin, origin, -1, -1)
        + ray_moves(board, piece, origin, origin, -1, 1)
}

impl Piece for Bishop {
    open spec fn kind(&self) -> PieceType {
        PieceType::Bishop(*self)
    }

    fn get_type(&self) -> (piece: PieceType)
        ensures
            piece == PieceType::Bishop(*self),
    {
        PieceType::Bishop(*self)
    }

    fn get_symbol(&self) -> (symbol: char)
        ensures
            symbol == 'B',
    {
        'B'
    }

    fn get_value(&self) -> (value: u8)
        ensures
            value == 3,
    {
        3
    }

    fn get_colour(&self) -> (colour: Colour)
        ensures
            colour == self.colour,
    {
        self.colour
    }

    /// A bishop keeps no note of its first move: nothing changes.
    fn set_first_move(&mut self, _value: bool)
        ensures
            *final(self) == *old(self),
    {
    }

    fn duplicate(&self) -> (copy: PieceType)
        ensures
            copy == PieceType::Bishop(*self),
    {
        PieceType::Bishop(Bishop::new(self.colour))
    }

    fn available_moves(&self, board: &Board, position: &Square) -> (moves: Vec<HalfMove>)
        ensures
            moves@ == bishop_moves(board@, PieceType::Bishop(*self), *position),
    {
        let mut moves: Vec<HalfMove> = Vec::new();
        // north-east
        moves = self.next_move_recursive(board, position, position, moves, false, 1, 1);
        assert(moves@ =~= ray_moves(board@, self.kind(), *position, *position, 1, 1));
        // north-west
        moves = self.next_move_recursive(board, position, position, moves, false, 1, -1);
        // south-west
        moves = self.next_move_recursive(board, position, position, moves, false, -1, -1);
        // south-east
        moves = self.next_move_recursive(board, position, position, moves, false, -1, 1);
        moves
    }
}

} // verus!
