use vstd::prelude::*;
use crate::game::play::HalfMove;
use crate::game::score::Score;
use crate::model::board::board::{Board, BoardView};
use crate::model::board::square::Square;
use crate::model::piece::color::Colour;
use crate::model::piece::piece::{capture_move, offset, shifted, Piece, PieceType};

verus! {

/// A pawn of one side, with the note whether it has yet to make its first move.
#[derive(Debug, Copy, Clone, Hash)]
pub struct Pawn {
    pub colour: Colour,
    pub first_move: bool,
}

impl Pawn {
    /// A piece that has not moved yet.
    pub fn new(colour: Colour) -> (piece: Pawn)
        ensures
            piece.colour == colour,
            piece.first_move,
    {
        Pawn { colour, first_move: true }
    }

    /// The step in rank of one advance: up the board for White, down for Black.
    pub fn get_increment(&self) -> (step: i8)
        ensures
            step == increment(self.colour),
    {
        match self.colour {
            Colour::White => 1,
            Colour::Black => -1,
        }
    }

    fn next_move(
        &self,
        board: &Board,
        original_position: &Square,
        position: &Square,
        moves: Vec<HalfMove>,
        it: u8,
        max_it: u8,
        step_r: i8,
        step_f: i8,
    ) -> (all: Vec<HalfMove>)
        requires
            max_it < u8::MAX,
        ensures
            all@ == moves@ + advance_moves(
                board@,
                self.kind(),
                *original_position,
                *position,
                step_r as int,
                step_f as int,
                it as nat,
                max_it as nat,
            ),
        decreases max_it + 1 - it,
    {
        let mut moves = moves;
        let ghost before = moves@;
        if it > max_it {
            assert(before + Seq::<HalfMove>::empty() =~= before);
            return moves;
        }
        match shifted(board, position, step_r, step_f) {
            Some(square) => {
                if board.is_square_free(&square) {
                    let promotion = board.is_promotion_square(&square, self.get_colour());
                    moves.push(
                        HalfMove::new(
                            self.get_type(),
                            *original_position,
                            square,
                            false,
                            promotion,
                            false,
                            false,
                            false,
                            Score::new_zero(),
                        ),
                    );
                    let all = self.next_move(
                        board,
                        original_position,
                        &square,
                        moves,
                        it + 1,
                        max_it,
                        step_r,
                        step_f,
                    );
                    proof {
                        let first = HalfMove::plain(
                            self.kind(),
                            *original_position,
                            square,
                            false,
                            promotion,
                        );
                        let rest = advance_moves(
                            board@,
                            self.kind(),
                            *original_position,
                            square,
                            step_r as int,
                            step_f as int,
                            (it + 1) as nat,
                            max_it as nat,
                        );
                        assert(before.push(first) + rest =~= before + (seq![first] + rest));
                    }
                    return all;
                }
                assert(before + Seq::<HalfMove>::empty() =~= before);
                moves
            },
            None => {
                assert(before + Seq::<HalfMove>::empty() =~= before);
                moves
            },
        }
    }

    fn capture_towards(&self, board: &Board, position: &Square, side: i8) -> (play: Option<
        HalfMove,
    >)
        requires
            -1 <= side <= 1,
        ensures
            play == capture_move(
                board@,
                self.kind(),
                *position,
                position.rank + increment(self.colour),
                position.file + side,
            ),
    {
        let target_rank: i16 = position.get_rank() as i16 + self.get_increment() as i16;
        let target_line: i16 = position.get_file() as i16 + side as i16;
        if target_rank <= 127 && target_line <= 127 {
            self.capture(board, position, target_rank as i8, target_line as i8)
        } else {
            None
        }
    }

    fn capture_left(&self, board: &Board, position: &Square) -> (play: Option<HalfMove>)
        ensures
            play == capture_move(
                board@,
                self.kind(),
                *position,
                position.rank + increment(self.colour),
                position.file - 1,
            ),
    {
        self.capture_towards(board, position, -1)
    }

    fn capture_right(&self, board: &Board, position: &Square) -> (play: Option<HalfMove>)
        ensures
            play == capture_move(
                board@,
                self.kind(),
                *position,
                position.rank + increment(self.colour),
                position.file + 1,
            ),
    {
        self.capture_towards(board, position, 1)
    }
}

/// The step in rank of one advance of a pawn of the given side.
pub open spec fn increment(colour: Colour) -> int {
    match colour {
        Colour::White => 1,
        Colour::Black => -1,
    }
}

/// The advances of a piece at `origin` by steps of `(dr, df)`, for the part
/// of the walk that lies beyond `current`, where the next step is number `it`
/// of at most `max_it`: one move to each free square in turn, up to the first
/// square that is not free. No advance captures; one that reaches the far
/// rank of the piece's side is a promotion.
pub open spec fn advance_moves(
    board: BoardView,
    piece: PieceType,
    origin: Square,
    current: Square,
    dr: int,
    df: int,
    it: nat,
    max_it: nat,
) -> Seq<HalfMove>
    decreases max_it + 1 - it,
{
    if it > max_it {
        Seq::empty()
    } else {
        match offset(current, dr, df) {
            Some(target) => {
                if board.is_free(target) {
                    seq![
                        HalfMove::plain(
                            piece,
                            origin,
                            target,
                            false,
                            BoardView::promotion_square(target, piece.colour()),
                        ),
                    ] + advance_moves(board, piece, origin, target, dr, df, it + 1, max_it)
                } else {
                    Seq::empty()
                }
            },
            None => Seq::empty(),
        }
    }
}

/// How many squares a pawn may advance at most: two on its first move, else one.
pub open spec fn reach(pawn: Pawn) -> nat {
    if pawn.first_move {
        2
    } else {
        1
    }
}

/// The moves in a sequence of none or one.
pub open spec fn maybe(play: Option<HalfMove>) -> Seq<HalfMove> {
    match play {
        Some(m) => seq![m],
        None => Seq::empty(),
    }
}

/// The forward moves of a pawn: its advances straight ahead.
pub open spec fn pawn_advances(board: BoardView, pawn: Pawn, origin: Square) -> Seq<HalfMove> {
    advance_moves(
        board,
        PieceType::Pawn(pawn),
        origin,
        origin,
        increment(pawn.colour),
        0,
        1,
        reach(pawn),
    )
}

/// The captures of a pawn: of the enemy piece diagonally ahead to the left,
/// then of the one to the right.
pub open spec fn pawn_captures(board: BoardView, pawn: Pawn, origin: Square) -> Seq<HalfMove> {
    maybe(
        capture_move(
            board,
            PieceType::Pawn(pawn),
            origin,
            origin.rank + increment(pawn.colour),
            origin.file - 1,
        ),
    ) + maybe(
        capture_move(
            board,
            PieceType::Pawn(pawn),
            origin,
            origin.rank + increment(pawn.colour),
            origin.file + 1,
        ),
    )
}

/// The candidate moves of a pawn: its advances, then its captures. Capture
/// in passing is not among them.
pub open spec fn pawn_moves(board: BoardView, pawn: Pawn, origin: Square) -> Seq<HalfMove> {
    pawn_advances(board, pawn, origin) + pawn_captures(board, pawn, origin)
}

/// The forward moves of a pawn. A pawn that has yet to make its first move
/// and has two free squares ahead has exactly two: one step and two steps
/// ahead. A pawn that has moved has at most one. No forward move is a
/// capture, and each stays on the pawn's file; all other candidate moves of
/// a pawn are captures and leave the file.
pub proof fn lemma_pawn_forward_moves(board: BoardView, pawn: Pawn, origin: Square)
    ensures
        pawn_moves(board, pawn, origin) == pawn_advances(board, pawn, origin) + pawn_captures(
            board,
            pawn,
            origin,
        ),
        pawn_advances(board, pawn, origin).len() <= 2,
        !pawn.first_move ==> pawn_advances(board, pawn, origin).len() <= 1,
        pawn.first_move ==> (pawn_advances(board, pawn, origin).len() == 2 <==> {
            &&& offset(origin, increment(pawn.colour), 0) matches Some(one)
            &&& offset(one, increment(pawn.colour), 0) matches Some(two)
            &&& board.is_free(one)
            &&& board.is_free(two)
        }),
        forall|i: int|
            0 <= i < pawn_advances(board, pawn, origin).len() ==> {
                let play = #[trigger] pawn_advances(board, pawn, origin)[i];
                &&& !play.capture
                &&& play.to.file == origin.file
                &&& play.to.rank == origin.rank + (i + 1) * increment(pawn.colour)
            },
        forall|i: int|
            0 <= i < pawn_captures(board, pawn, origin).len() ==> {
                let play = #[trigger] pawn_captures(board, pawn, origin)[i];
                &&& play.capture
                &&& play.to.file != origin.file
            },
{
    reveal_with_fuel(advance_moves, 4);
    let advances = pawn_advances(board, pawn, origin);
    let step = increment(pawn.colour);
    assert(1 * step == step && 2 * step == step + step);
    assert forall|i: int| 0 <= i < advances.len() implies {
        let play = #[trigger] advances[i];
        &&& !play.capture
        &&& play.to.file == origin.file
        &&& play.to.rank == origin.rank + (i + 1) * step
    } by {
        if i == 0 {
            assert(advances[0].to.rank == origin.rank + step);
        } else {
            assert(i == 1);
            assert(advances[1].to.rank == origin.rank + step + step);
        }
    }
}

impl Piece for Pawn {
    open spec fn kind(&self) -> PieceType {
        PieceType::Pawn(*self)
    }

    fn get_type(&self) -> (piece: PieceType)
        ensures
            piece == PieceType::Pawn(*self),
    {
        PieceType::Pawn(*self)
    }

    fn get_symbol(&self) -> (symbol: char)
        ensures
            symbol == 'P',
    {
        'P'
    }

    fn get_value(&self) -> (value: u8)
        ensures
            value == 1,
    {
        1
    }

    fn get_colour(&self) -> (colour: Colour)
        ensures
            colour == self.colour,
    {
        self.colour
    }

    fn set_first_move(&mut self, value: bool)
        ensures
            *final(self) == (Pawn { colour: old(self).colour, first_move: value }),
    {
        self.first_move = value;
    }

    fn duplicate(&self) -> (copy: PieceType)
        ensures
            copy == PieceType::Pawn(*self),
    {
        let mut copy = Pawn::new(self.colour);
        copy.set_first_move(self.first_move);
        PieceType::Pawn(copy)
    }

    fn available_moves(&self, board: &Board, position: &Square) -> (moves: Vec<HalfMove>)
        ensures
            moves@ == pawn_moves(board@, *self, *position),
    {
        let mut moves: Vec<HalfMove> = Vec::new();

        // Advances
        let max_it: u8 = match self.first_move {
            true => 2,
            false => 1,
        };
        moves = self.next_move(board, position, position, moves, 1, max_it, self.get_increment(), 0);
        let ghost advances = moves@;
        assert(advances =~= pawn_advances(board@, *self, *position));

        // Captures
        let left = self.capture_left(board, position);
        match left {
            Some(half_move) => moves.push(half_move),
            None => {},
        }
        let right = self.capture_right(board, position);
        match right {
            Some(half_move) => moves.push(half_move),
            None => {},
        }
        assert(moves@ =~= advances + (maybe(left) + maybe(right)));
        moves
    }
}

} // verus!
