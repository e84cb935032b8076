use vstd::prelude::*;
use crate::game::play::HalfMove;
use crate::model::board::board::{Board, BoardView};
use crate::model::board::square::Square;
use crate::model::piece::color::Colour;
use crate::model::piece::piece::{ray_moves, Piece, PieceType};

verus! {

/// A queen of one side.
#[derive(Debug, Copy, Clone, Hash)]
pub struct Queen {
    pub colour: Colour,
}

impl Queen {
    pub fn new(colour: Colour) -> (piece: Queen)
        ensures
            piece.colour == colour,
    {
        Queen { colour }
    }
}

/// The candidate moves of a queen: its slides in the eight directions, counter-
/// clockwise from north.
pub open spec fn queen_moves(board: BoardView, piece: PieceType, origin: Square) -> Seq<HalfMove> {
    ray_moves(board, piece, origin, origin, 1, 0)
        + ray_moves(board, piece, origin, origin, 1, -1)
        + ray_moves(board, piece, origin, origin, 0, -1)
        + ray_moves(board, piece, origin, origin, -1, -1)
        + ray_moves(board, piece, origin, origin, -1, 0)
        + ray_moves(board, piece, origin, origin, -1, 1)
        + ray_moves(board, piece, origin, origin, 0, 1)
        + ray_moves(board, piece, origin, origin, 1, 1)
}

impl Piece for Queen {
    open spec fn kind(&self) -> PieceType {
        PieceType::Queen(*self)
    }

    fn get_type(&self) -> (piece: PieceType)
        ensures
            piece == PieceType::Queen(*self),
    {
        PieceType::Queen(*self)
    }

    fn get_symbol(&self) -> (symbol: char)
        ensures
            symbol == 'Q',
    {
        'Q'
    }

    fn get_value(&self) -> (value: u8)
        ensures
            value == 9,
    {
        9
    }

    fn get_colour(&self) -> (colour: Colour)
        ensures
            colour == self.colour,
    {
        self.colour
    }

    /// A queen keeps no note of its first move: nothing changes.
    fn set_first_move(&mut self, _value: bool)
        ensures
            *final(self) == *old(self),
    {
    }

    fn duplicate(&self) -> (copy: PieceType)
        ensures
            copy == PieceType::Queen(*self),
    {
        PieceType::Queen(Queen::new(self.colour))
    }

    fn available_moves(&self, board: &Board, position: &Square) -> (moves: Vec<HalfMove>)
        ensures
            moves@ == queen_moves(board@, PieceType::Queen(*self), *position),
    {
        let mut moves: Vec<HalfMove> = Vec::new();
        // north
        moves = self.next_move_recursive(board, position, position, moves, false, 1, 0);
        assert(moves@ =~= ray_moves(board@, self.kind(), *position, *position, 1, 0));
        // north-west
        moves = self.next_move_recursive(board, position, position, moves, false, 1, -1);
        // west
        moves = self.next_move_recursive(board, position, position, moves, false, 0, -1);
        // south-west
        moves = self.next_move_recursive(board, position, position, moves, false, -1, -1);
        // south
        moves = self.next_move_recursive(board, position, position, moves, false, -1, 0);
        // south-east
        moves = self.next_move_recursive(board, position, position, moves, false, -1, 1);
        // east
        moves = self.next_move_recursive(board, position, position, moves, false, 0, 1);
        // north-east
        moves = self.next_move_recursive(board, position, position, moves, false, 1, 1);
        moves
    }
}

} // verus!
