use vstd::prelude::*;
use crate::game::play::HalfMove;
use crate::game::score::Score;
use crate::model::board::board::{Board, BoardView};
use crate::model::board::square::Square;
use crate::model::piece::bishop::{bishop_moves, Bishop};
use crate::model::piece::color::Colour;
use crate::model::piece::king::{king_moves, King};
use crate::model::piece::knight::{knight_moves, Knight};
use crate::model::piece::pawn::{pawn_moves, Pawn};
use crate::model::piece::queen::{queen_moves, Queen};
use crate::model::piece::rook::{rook_moves, Rook};

verus! {

/// A piece of any of the six kinds.
#[derive(Debug, Copy, Clone, Hash)]
pub enum PieceType {
    Pawn(Pawn),
    Knight(Knight),
    Bishop(Bishop),
    Rook(Rook),
    Queen(Queen),
    King(King),
}

impl PieceType {
    /// The letter that stands for the kind of the piece, whatever its colour.
    pub open spec fn symbol(self) -> char {
        match self {
            PieceType::Pawn(_) => 'P',
            PieceType::Knight(_) => 'N',
            PieceType::Bishop(_) => 'B',
            PieceType::Rook(_) => 'R',
            PieceType::Queen(_) => 'Q',
            PieceType::King(_) => 'K',
        }
    }

    /// The material worth of the piece. A king is worth the greatest value
    /// that fits, so that its presence outweighs all other material.
    pub open spec fn value(self) -> u8 {
        match self {
            PieceType::Pawn(_) => 1,
            PieceType::Knight(_) => 3,
            PieceType::Bishop(_) => 3,
            PieceType::Rook(_) => 5,
            PieceType::Queen(_) => 9,
            PieceType::King(_) => u8::MAX,
        }
    }

    pub open spec fn colour(self) -> Colour {
        match self {
            PieceType::Pawn(p) => p.colour,
            PieceType::Knight(p) => p.colour,
            PieceType::Bishop(p) => p.colour,
            PieceType::Rook(p) => p.colour,
            PieceType::Queen(p) => p.colour,
            PieceType::King(p) => p.colour,
        }
    }

    /// The same piece with its first-move note set to `value`. Knights,
    /// bishops and queens keep no such note and stay as they are.
    pub open spec fn with_first_move(self, value: bool) -> PieceType {
        match self {
            PieceType::Pawn(p) => PieceType::Pawn(Pawn { colour: p.colour, first_move: value }),
            PieceType::Rook(p) => PieceType::Rook(Rook { colour: p.colour, first_move: value }),
            PieceType::King(p) => PieceType::King(King { colour: p.colour, first_move: value }),
            _ => self,
        }
    }

    pub open spec fn is_pawn(self) -> bool {
        self.symbol() == 'P'
    }

    pub open spec fn is_king(self) -> bool {
        self.symbol() == 'K'
    }

    /// Whether the two pieces are of the same kind, whatever their colours.
    pub fn same_kind(&self, other: &PieceType) -> (same: bool)
        ensures
            same == (self.symbol() == other.symbol()),
    {
        self.letter() == other.letter()
    }

    fn letter(&self) -> (symbol: char)
        ensures
            symbol == self.symbol(),
    {
        match self {
            PieceType::Pawn(_) => 'P',
            PieceType::Knight(_) => 'N',
            PieceType::Bishop(_) => 'B',
            PieceType::Rook(_) => 'R',
            PieceType::Queen(_) => 'Q',
            PieceType::King(_) => 'K',
        }
    }

    fn side(&self) -> (colour: Colour)
        ensures
            colour == self.colour(),
    {
        match self {
            PieceType::Pawn(p) => p.colour,
            PieceType::Knight(p) => p.colour,
            PieceType::Bishop(p) => p.colour,
            PieceType::Rook(p) => p.colour,
            PieceType::Queen(p) => p.colour,
            PieceType::King(p) => p.colour,
        }
    }
}


/// The square that lies `dr` ranks and `df` files from `origin`, if it is on
/// the board.
pub open spec fn offset(origin: Square, dr: int, df: int) -> Option<Square> {
    let rank = origin.rank + dr;
    let file = origin.file + df;
    if 0 <= rank < 8 && 0 <= file < 8 {
        Some(Square { rank: rank as u8, file: file as u8 })
    } else {
        None
    }
}

/// The move of a piece that steps once by `(dr, df)`: there is one if the
/// square reached is on the board and is free or holds an enemy piece, which
/// the move then captures.
pub open spec fn step_moves(
    board: BoardView,
    piece: PieceType,
    origin: Square,
    dr: int,
    df: int,
) -> Seq<HalfMove> {
    match offset(origin, dr, df) {
        Some(target) => {
            let capture = board.has_piece(target, piece.colour().opposite());
            if board.is_free(target) || capture {
                seq![HalfMove::plain(piece, origin, target, capture, false)]
            } else {
                Seq::empty()
            }
        },
        None => Seq::empty(),
    }
}

/// How many more squares a walk by `(dr, df)` from `current` can reach at
/// most before it leaves the board.
pub open spec fn ray_room(current: Square, dr: int, df: int) -> nat {
    if dr > 0 {
        if current.rank < 8 {
            (8 - current.rank) as nat
        } else {
            0
        }
    } else if dr < 0 {
        (current.rank + 1) as nat
    } else if df > 0 {
        if current.file < 8 {
            (8 - current.file) as nat
        } else {
            0
        }
    } else if df < 0 {
        (current.file + 1) as nat
    } else {
        0
    }
}

/// The moves of a piece at `origin` that slides by `(dr, df)`, for the part
/// of the walk that lies beyond `current`: one move to each free square in
/// turn, up to the first square that is not free; that square is the last
/// target if it holds an enemy piece, which the move captures.
pub open spec fn ray_moves(
    board: BoardView,
    piece: PieceType,
    origin: Square,
    current: Square,
    dr: int,
    df: int,
) -> Seq<HalfMove>
    decreases ray_room(current, dr, df),
{
    if dr == 0 && df == 0 {
        Seq::empty()
    } else {
        match offset(current, dr, df) {
            Some(target) => {
                if board.has_piece(target, piece.colour().opposite()) {
                    seq![HalfMove::plain(piece, origin, target, true, false)]
                } else if board.is_free(target) {
                    seq![HalfMove::plain(piece, origin, target, false, false)] + ray_moves(
                        board,
                        piece,
                        origin,
                        target,
                        dr,
                        df,
                    )
                } else {
                    Seq::empty()
                }
            },
            None => Seq::empty(),
        }
    }
}

/// The capture by a piece at `origin` of what stands on the square of the
/// given rank and file: there is one if that square is on the board and holds
/// an enemy piece. A pawn that reaches its far rank by it is promoted.
pub open spec fn capture_move(
    board: BoardView,
    piece: PieceType,
    origin: Square,
    rank: int,
    file: int,
) -> Option<HalfMove> {
    if 0 <= rank < 8 && 0 <= file < 8 {
        let target = Square { rank: rank as u8, file: file as u8 };
        if board.has_piece(target, piece.colour().opposite()) {
            Some(
                HalfMove::plain(
                    piece,
                    origin,
                    target,
                    true,
                    piece.is_pawn() && BoardView::promotion_square(target, piece.colour()),
                ),
            )
        } else {
            None
        }
    } else {
        None
    }
}

/// The candidate moves of a piece that stands on `origin`, in the order in
/// which they are generated. Whether a move leaves the mover's own king in
/// check is not looked at here.
pub open spec fn moves_of(board: BoardView, piece: PieceType, origin: Square) -> Seq<HalfMove> {
    match piece {
        PieceType::Pawn(pawn) => pawn_moves(board, pawn, origin),
        PieceType::Knight(_) => knight_moves(board, piece, origin),
        PieceType::Bishop(_) => bishop_moves(board, piece, origin),
        PieceType::Rook(_) => rook_moves(board, piece, origin),
        PieceType::Queen(_) => queen_moves(board, piece, origin),
        PieceType::King(_) => king_moves(board, piece, origin),
    }
}

/// Whether a piece on `origin` controls `target`: whether one of its
/// candidate moves goes there.
pub open spec fn controls(board: BoardView, piece: PieceType, origin: Square, target: Square) -> bool {
    exists|i: int|
        0 <= i < moves_of(board, piece, origin).len() && (#[trigger] moves_of(
            board,
            piece,
            origin,
        )[i]).to == target
}

/// The square that lies the given steps from `position`, if it is on the board.
pub fn shifted(board: &Board, position: &Square, step_r: i8, step_f: i8) -> (target: Option<Square>)
    ensures
        target == offset(*position, step_r as int, step_f as int),
{
    let rank: i16 = position.get_rank() as i16 + step_r as i16;
    let file: i16 = position.get_file() as i16 + step_f as i16;
    if 0 <= rank && rank < 8 && 0 <= file && file < 8 {
        match board.get_square(rank as i8, file as i8) {
            Some(square) => Some(*square),
            None => None,
        }
    } else {
        None
    }
}

/// Two pieces are equal when they are of the same kind: the colour and the
/// first-move note do not count.
impl PartialEq for PieceType {
    fn eq(&self, other: &Self) -> (equal: bool) {
        self.same_kind(other)
    }
}

impl vstd::std_specs::cmp::PartialEqSpecImpl for PieceType {
    open spec fn obeys_eq_spec() -> bool {
        true
    }

    open spec fn eq_spec(&self, other: &Self) -> bool {
        self.symbol() == other.symbol()
    }
}

/// What every piece can tell of itself.
pub trait Piece {
    /// The piece as a value of the closed set of kinds.
    spec fn kind(&self) -> PieceType;

    fn get_type(&self) -> (piece: PieceType)
        ensures
            piece == self.kind(),
    ;

    fn get_symbol(&self) -> (symbol: char)
        ensures
            symbol == self.kind().symbol(),
    ;

    fn get_value(&self) -> (value: u8)
        ensures
            value == self.kind().value(),
    ;

    fn get_colour(&self) -> (colour: Colour)
        ensures
            colour == self.kind().colour(),
    ;

    fn set_first_move(&mut self, value: bool)
        ensures
            final(self).kind() == old(self).kind().with_first_move(value),
    ;

    /// A copy of the piece, first-move note included.
    fn duplicate(&self) -> (copy: PieceType)
        ensures
            copy == self.kind(),
    ;

    /// The candidate moves of the piece from `position`: see [`moves_of`].
    fn available_moves(&self, board: &Board, position: &Square) -> (moves: Vec<HalfMove>)
        ensures
            moves@ == moves_of(board@, self.kind(), *position),
    ;

    fn can_move(&self, board: &Board, position: &Square) -> (able: bool)
        ensures
            able == (moves_of(board@, self.kind(), *position).len() > 0),
    {
        !self.available_moves(board, position).is_empty()
    }

    /// The capture of what stands on the target square: see [`capture_move`].
    fn capture(&self, board: &Board, position: &Square, target_rank: i8, target_line: i8) -> (play:
        Option<HalfMove>)
        ensures
            play == capture_move(
                board@,
                self.kind(),
                *position,
                target_rank as int,
                target_line as int,
            ),
    {
        match board.get_square(target_rank, target_line) {
            Some(square) => {
                if self.can_capture(board, square) {
                    let promotion = self.get_type().same_kind(
                        &PieceType::Pawn(Pawn::new(self.get_colour())),
                    ) && board.is_promotion_square(square, self.get_colour());
                    Some(
                        HalfMove::new(
                            self.get_type(),
                            *position,
                            *square,
                            true,
                            promotion,
                            false,
                            false,
                            false,
                            Score::new_zero(),
                        ),
                    )
                } else {
                    None
                }
            },
            None => None,
        }
    }

    /// Whether an enemy piece stands on the target square.
    fn can_capture(&self, board: &Board, target: &Square) -> (able: bool)
        ensures
            able == board@.has_piece(*target, self.kind().colour().opposite()),
    {
        match board.get_piece(*target, Some(self.get_colour().get_opposite())) {
            Some(_) => true,
            None => false,
        }
    }

    /// Whether one of the piece's candidate moves goes to the target square.
    fn is_controlling(&self, board: &Board, position: &Square, target: &Square) -> (controlling:
        bool)
        ensures
            controlling == controls(board@, self.kind(), *position, *target),
    {
        let moves = self.available_moves(board, position);
        let mut i: usize = 0;
        while i < moves.len()
            invariant
                i <= moves.len(),
                moves@ == moves_of(board@, self.kind(), *position),
                forall|j: int| 0 <= j < i ==> (#[trigger] moves@[j]).to != *target,
            decreases moves.len() - i,
        {
            if moves[i].get_to() == *target {
                return true;
            }
            i += 1;
        }
        false
    }

    /// Adds to `moves` the moves of a slide by the given steps that lie
    /// beyond `position`: see [`ray_moves`]. After a capture nothing is added.
    fn next_move_recursive(
        &self,
        board: &Board,
        original_position: &Square,
        position: &Square,
        moves: Vec<HalfMove>,
        has_captured: bool,
        step_r: i8,
        step_f: i8,
    ) -> (all: Vec<HalfMove>)
        requires
            step_r != 0 || step_f != 0,
        ensures
            all@ == moves@ + (if has_captured {
                Seq::empty()
            } else {
                ray_moves(
                    board@,
                    self.kind(),
                    *original_position,
                    *position,
                    step_r as int,
                    step_f as int,
                )
            }),
    {
        slide(
            &self.get_type(),
            board,
            original_position,
            position,
            moves,
            has_captured,
            step_r,
            step_f,
        )
    }

    /// Adds to `moves` the move of a single step, if there is one: see
    /// [`step_moves`].
    fn next_move_single(
        &self,
        board: &Board,
        position: &Square,
        moves: Vec<HalfMove>,
        step_r: i8,
        step_f: i8,
    ) -> (all: Vec<HalfMove>)
        ensures
            all@ == moves@ + step_moves(
                board@,
                self.kind(),
                *position,
                step_r as int,
                step_f as int,
            ),
    {
        let mut moves = moves;
        let ghost before = moves@;
        match shifted(board, position, step_r, step_f) {
            Some(square) => {
                if board.is_square_free(&square) || self.can_capture(board, &square) {
                    let capture = self.can_capture(board, &square);
                    moves.push(
                        HalfMove::new(
                            self.get_type(),
                            *position,
                            square,
                            capture,
                            false,
                            false,
                            false,
                            false,
                            Score::new_zero(),
                        ),
                    );
                    assert(moves@ =~= before + seq![
                        HalfMove::plain(self.kind(), *position, square, capture, false),
                    ]);
                } else {
                    assert(moves@ =~= before + Seq::<HalfMove>::empty());
                }
                moves
            },
            None => {
                assert(moves@ =~= before + Seq::<HalfMove>::empty());
                moves
            },
        }
    }
}

impl Piece for PieceType {
    open spec fn kind(&self) -> PieceType {
        *self
    }

    fn get_type(&self) -> (piece: PieceType) {
        *self
    }

    fn get_symbol(&self) -> (symbol: char) {
        match self {
            PieceType::Pawn(p) => p.get_symbol(),
            PieceType::Knight(p) => p.get_symbol(),
            PieceType::Bishop(p) => p.get_symbol(),
            PieceType::Rook(p) => p.get_symbol(),
            PieceType::Queen(p) => p.get_symbol(),
            PieceType::King(p) => p.get_symbol(),
        }
    }

    fn get_value(&self) -> (value: u8) {
        match self {
            PieceType::Pawn(p) => p.get_value(),
            PieceType::Knight(p) => p.get_value(),
            PieceType::Bishop(p) => p.get_value(),
            PieceType::Rook(p) => p.get_value(),
            PieceType::Queen(p) => p.get_value(),
            PieceType::King(p) => p.get_value(),
        }
    }

    fn get_colour(&self) -> (colour: Colour) {
        match self {
            PieceType::Pawn(p) => p.get_colour(),
            PieceType::Knight(p) => p.get_colour(),
            PieceType::Bishop(p) => p.get_colour(),
            PieceType::Rook(p) => p.get_colour(),
            PieceType::Queen(p) => p.get_colour(),
            PieceType::King(p) => p.get_colour(),
        }
    }

    fn set_first_move(&mut self, value: bool) {
        match self {
            PieceType::Pawn(p) => p.set_first_move(value),
            PieceType::Knight(p) => p.set_first_move(value),
            PieceType::Bishop(p) => p.set_first_move(value),
            PieceType::Rook(p) => p.set_first_move(value),
            PieceType::Queen(p) => p.set_first_move(value),
            PieceType::King(p) => p.set_first_move(value),
        }
    }

    fn duplicate(&self) -> (copy: PieceType) {
        match self {
            PieceType::Pawn(p) => p.duplicate(),
            PieceType::Knight(p) => p.duplicate(),
            PieceType::Bishop(p) => p.duplicate(),
            PieceType::Rook(p) => p.duplicate(),
            PieceType::Queen(p) => p.duplicate(),
            PieceType::King(p) => p.duplicate(),
        }
    }

    fn available_moves(&self, board: &Board, position: &Square) -> (moves: Vec<HalfMove>) {
        match self {
            PieceType::Pawn(p) => p.available_moves(board, position),
            PieceType::Knight(p) => p.available_moves(board, position),
            PieceType::Bishop(p) => p.available_moves(board, position),
            PieceType::Rook(p) => p.available_moves(board, position),
            PieceType::Queen(p) => p.available_moves(board, position),
            PieceType::King(p) => p.available_moves(board, position),
        }
    }
}

/// Adds to `moves` the moves of a piece that slides by the given steps, for
/// the part of the walk beyond `position`: see [`ray_moves`]. After a capture
/// nothing is added.
pub fn slide(
    piece: &PieceType,
    board: &Board,
    original_position: &Square,
    position: &Square,
    moves: Vec<HalfMove>,
    has_captured: bool,
    step_r: i8,
    step_f: i8,
) -> (all: Vec<HalfMove>)
    requires
        step_r != 0 || step_f != 0,
    ensures
        all@ == moves@ + (if has_captured {
            Seq::empty()
        } else {
            ray_moves(board@, *piece, *original_position, *position, step_r as int, step_f as int)
        }),
    decreases ray_room(*position, step_r as int, step_f as int),
{
    let mut moves = moves;
    if has_captured {
        assert(moves@ + Seq::<HalfMove>::empty() =~= moves@);
        return moves;
    }
    match shifted(board, position, step_r, step_f) {
        Some(target) => {
            let can_capture = board.get_piece(target, Some(piece.side().get_opposite())).is_some();
            if board.is_square_free(&target) || can_capture {
                let ghost before = moves@;
                let ghost first = HalfMove::plain(
                    *piece,
                    *original_position,
                    target,
                    can_capture,
                    false,
                );
                moves.push(
                    HalfMove::new(
                        *piece,
                        *original_position,
                        target,
                        can_capture,
                        false,
                        false,
                        false,
                        false,
                        Score::new_zero(),
                    ),
                );
                let all = slide(
                    piece,
                    board,
                    original_position,
                    &target,
                    moves,
                    can_capture,
                    step_r,
                    step_f,
                );
                proof {
                    let rest = if can_capture {
                        Seq::<HalfMove>::empty()
                    } else {
                        ray_moves(
                            board@,
                            *piece,
                            *original_position,
                            target,
                            step_r as int,
                            step_f as int,
                        )
                    };
                    assert(before.push(first) + rest =~= before + (seq![first] + rest));
                    assert(seq![first] + Seq::<HalfMove>::empty() =~= seq![first]);
                }
                return all;
            }
            assert(moves@ + Seq::<HalfMove>::empty() =~= moves@);
            moves
        },
        None => {
            assert(moves@ + Seq::<HalfMove>::empty() =~= moves@);
            moves
        },
    }
}

} // verus!
