use vstd::prelude::*;
use crate::model::board::square::Square;
use crate::game::play::HalfMove;
use crate::game::score::Ratio;
use crate::model::piece::color::Colour;
use crate::model::piece::king::King;
use crate::model::piece::pawn::Pawn;
use crate::model::piece::piece::{controls, Piece, PieceType};
use crate::model::piece::queen::Queen;
use crate::utils::identity_grid;

verus! {

/// What a board holds, as two maps: for each side, the squares on which its
/// pieces stand and the piece on each.
pub struct BoardView {
    pub white: Map<Square, PieceType>,
    pub black: Map<Square, PieceType>,
}

impl BoardView {
    /// The pieces of one side.
    pub open spec fn pieces(self, colour: Colour) -> Map<Square, PieceType> {
        match colour {
            Colour::White => self.white,
            Colour::Black => self.black,
        }
    }

    /// Whether a piece of the given side stands on the square.
    pub open spec fn has_piece(self, square: Square, colour: Colour) -> bool {
        self.pieces(colour).dom().contains(square)
    }

    /// Whether no piece of either side stands on the square.
    pub open spec fn is_free(self, square: Square) -> bool {
        !self.has_piece(square, Colour::White) && !self.has_piece(square, Colour::Black)
    }

    /// The piece of the given side on the square; with no side given, the
    /// white piece on it, or else the black one.
    pub open spec fn piece_at(self, square: Square, colour: Option<Colour>) -> Option<PieceType> {
        match colour {
            Some(c) => if self.has_piece(square, c) {
                Some(self.pieces(c)[square])
            } else {
                None
            },
            None => if self.has_piece(square, Colour::White) {
                Some(self.white[square])
            } else if self.has_piece(square, Colour::Black) {
                Some(self.black[square])
            } else {
                None
            },
        }
    }

    /// All pieces stand on squares of the board.
    pub open spec fn bounded(self) -> bool {
        forall|square: Square, colour: Colour| #[trigger]
            self.has_piece(square, colour) ==> square.on_board()
    }

    /// The board is bounded, no square holds a piece of each side, and each
    /// side's pieces are of its own colour.
    pub open spec fn consistent(self) -> bool {
        &&& self.bounded()
        &&& forall|square: Square|
            !(#[trigger] self.has_piece(square, Colour::White) && self.has_piece(
                square,
                Colour::Black,
            ))
        &&& forall|square: Square, colour: Colour| #[trigger]
            self.has_piece(square, colour) ==> self.pieces(colour)[square].colour() == colour
    }

    /// Whether what stands on the square is as a consistent board has it:
    /// not a piece of each side, and no piece of the other side's colour.
    pub open spec fn sound_at(self, square: Square) -> bool {
        &&& !(self.has_piece(square, Colour::White) && self.has_piece(square, Colour::Black))
        &&& (self.has_piece(square, Colour::White) ==> self.white[square].colour()
            == Colour::White)
        &&& (self.has_piece(square, Colour::Black) ==> self.black[square].colour()
            == Colour::Black)
    }

    /// The pieces of one side on the first `n` squares in rank-major order,
    /// each with its square.
    pub open spec fn listing(self, colour: Colour, n: nat) -> Seq<(Square, PieceType)>
        decreases n,
    {
        if n == 0 {
            Seq::empty()
        } else {
            let square = Square::at(n - 1);
            let before = self.listing(colour, (n - 1) as nat);
            if self.has_piece(square, colour) {
                before.push((square, self.pieces(colour)[square]))
            } else {
                before
            }
        }
    }

    /// Whether the square is the far rank of the given side, on which its
    /// pawns are promoted.
    pub open spec fn promotion_square(square: Square, colour: Colour) -> bool {
        match colour {
            Colour::White => square.rank == 7,
            Colour::Black => square.rank == 0,
        }
    }

    /// The board with the pieces of one side replaced by `own` and those of
    /// the other side by `enemy`.
    pub open spec fn rebuilt(
        colour: Colour,
        own: Map<Square, PieceType>,
        enemy: Map<Square, PieceType>,
    ) -> BoardView {
        match colour {
            Colour::White => BoardView { white: own, black: enemy },
            Colour::Black => BoardView { white: enemy, black: own },
        }
    }

    /// The piece that stands on the target square once the move is made: a
    /// new queen of the mover's side if the move is a promotion, else the
    /// piece that stood on the origin, which has now moved.
    pub open spec fn arrival(self, play: HalfMove) -> PieceType {
        let mover = play.piece.colour();
        if play.promotion {
            PieceType::Queen(Queen { colour: mover })
        } else {
            self.pieces(mover)[play.from].with_first_move(false)
        }
    }

    /// The board after a move. The mover is the side of the piece that the
    /// move names. If the move is a capture, the enemy piece on the target
    /// square is gone. The mover's piece leaves its origin, and on the target
    /// square stands what [`BoardView::arrival`] says. Nothing else changes,
    /// and the move's legality is not looked at.
    pub open spec fn after(self, play: HalfMove) -> BoardView {
        let mover = play.piece.colour();
        let own = self.pieces(mover).remove(play.from).insert(play.to, self.arrival(play));
        let enemy = if play.capture {
            self.pieces(mover.opposite()).remove(play.to)
        } else {
            self.pieces(mover.opposite())
        };
        BoardView::rebuilt(mover, own, enemy)
    }

    /// The number of pieces of one side.
    pub open spec fn count(self, colour: Colour) -> nat {
        self.listing(colour, 64).len()
    }

    /// The square of the first king of one side in rank-major order.
    pub open spec fn king_square(self, colour: Colour) -> Option<Square> {
        first_king(self.listing(colour, 64), 0)
    }

    /// Whether the given side has a king on the board.
    pub open spec fn has_king(self, colour: Colour) -> bool {
        self.king_square(colour) is Some
    }

    /// Whether some piece of the given side controls the target square.
    pub open spec fn controlled(self, target: Square, colour: Colour) -> bool {
        exists|origin: Square|
            origin.on_board() && #[trigger] self.has_piece(origin, colour) && controls(
                self,
                self.pieces(colour)[origin],
                origin,
                target,
            )
    }

    /// Whether the king of the given side stands on a square that the other
    /// side controls.
    pub open spec fn under_check(self, colour: Colour) -> bool {
        self.controlled(self.king_square(colour).unwrap(), colour.opposite())
    }

    /// The sum of the values of the pieces of one side.
    pub open spec fn material(self, colour: Colour) -> nat {
        total_value(self.listing(colour, 64))
    }

    /// The number of squares among the first `n` that the given side controls.
    pub open spec fn activity_upto(self, colour: Colour, n: nat) -> nat
        decreases n,
    {
        if n == 0 {
            0
        } else {
            self.activity_upto(colour, (n - 1) as nat) + if self.controlled(
                Square::at(n - 1),
                colour,
            ) {
                1nat
            } else {
                0nat
            }
        }
    }

    /// The number of squares of the board that the given side controls.
    pub open spec fn activity(self, colour: Colour) -> nat {
        self.activity_upto(colour, 64)
    }

    /// How near the pawns of one side are to promotion, in 420ths: the sum
    /// of [`pawn_progress`] over its pawns.
    pub open spec fn proximity(self, colour: Colour) -> nat {
        total_progress(self.listing(colour, 64), colour)
    }
}

/// The square of the first king in the list from position `from` on.
pub open spec fn first_king(list: Seq<(Square, PieceType)>, from: nat) -> Option<Square>
    decreases list.len() - from,
{
    if from >= list.len() {
        None
    } else if list[from as int].1.is_king() {
        Some(list[from as int].0)
    } else {
        first_king(list, from + 1)
    }
}

/// The sum of the values of the pieces in the list.
pub open spec fn total_value(list: Seq<(Square, PieceType)>) -> nat
    decreases list.len(),
{
    if list.len() == 0 {
        0
    } else {
        total_value(list.drop_last()) + list.last().1.value() as nat
    }
}

/// How far a pawn of the given side on the given rank has come: the number
/// of ranks between it and its side's home rank, and 1 on the home rank
/// itself, where no pawn stands in play.
pub open spec fn pawn_distance(rank: u8, colour: Colour) -> int {
    let travelled = match colour {
        Colour::White => rank as int,
        Colour::Black => 7 - rank,
    };
    if travelled < 1 {
        1
    } else {
        travelled
    }
}

/// The worth of a pawn's place in 420ths: `1 - 1/d` for a pawn whose
/// distance is `d`. 420 is the least number that the distances 1 to 7 all
/// divide, so the worth is a whole number of 420ths.
pub open spec fn pawn_progress(rank: u8, colour: Colour) -> nat {
    let d = pawn_distance(rank, colour);
    (420int - 420int / d) as nat
}

/// The sum of the worths of the places of the pawns in the list.
pub open spec fn total_progress(list: Seq<(Square, PieceType)>, colour: Colour) -> nat
    decreases list.len(),
{
    if list.len() == 0 {
        0
    } else {
        total_progress(list.drop_last(), colour) + if list.last().1.is_pawn() {
            pawn_progress(list.last().0.rank, colour)
        } else {
            0
        }
    }
}

/// What a listing holds: each of its entries is a piece of the side on a
/// square of the board, and each such piece on one of the first `n` squares
/// has its entry.
pub proof fn lemma_listing(board: BoardView, colour: Colour, n: nat)
    requires
        n <= 64,
    ensures
        board.listing(colour, n).len() <= n,
        forall|i: int|
            0 <= i < board.listing(colour, n).len() ==> {
                let entry = #[trigger] board.listing(colour, n)[i];
                &&& entry.0.on_board()
                &&& entry.0.index() < n
                &&& board.has_piece(entry.0, colour)
                &&& entry.1 == board.pieces(colour)[entry.0]
            },
        forall|square: Square|
            square.on_board() && square.index() < n && #[trigger] board.has_piece(square, colour)
                ==> exists|i: int|
                0 <= i < board.listing(colour, n).len() && #[trigger] board.listing(colour, n)[i]
                    == (square, board.pieces(colour)[square]),
    decreases n,
{
    if n > 0 {
        lemma_listing(board, colour, (n - 1) as nat);
        let before = board.listing(colour, (n - 1) as nat);
        let now = board.listing(colour, n);
        let last = Square::at(n - 1);
        assert forall|square: Square|
            square.on_board() && square.index() < n && #[trigger] board.has_piece(
                square,
                colour,
            ) implies exists|i: int|
            0 <= i < now.len() && #[trigger] now[i] == (square, board.pieces(colour)[square]) by {
            if square.index() < n - 1 {
                let i = choose|i: int|
                    0 <= i < before.len() && #[trigger] before[i] == (
                        square,
                        board.pieces(colour)[square],
                    );
                assert(now[i] == before[i]);
            } else {
                assert(square == last);
                assert(now[now.len() - 1] == (square, board.pieces(colour)[square]));
            }
        }
    }
}

/// The byte that stands for what one side has on a square: 0 for nothing,
/// else four times the number of the piece's kind, from 1 for a pawn to 6
/// for a king, plus 2 for a white piece, plus 1 for a piece that has yet to
/// make its first move.
pub open spec fn piece_code(piece: Option<PieceType>) -> u8 {
    match piece {
        None => 0,
        Some(p) => {
            let side: int = if p.colour() == Colour::White {
                2
            } else {
                0
            };
            let (kind, fresh): (int, bool) = match p {
                PieceType::Pawn(x) => (1, x.first_move),
                PieceType::Knight(_) => (2, false),
                PieceType::Bishop(_) => (3, false),
                PieceType::Rook(x) => (4, x.first_move),
                PieceType::Queen(_) => (5, false),
                PieceType::King(x) => (6, x.first_move),
            };
            (kind * 4 + side + if fresh {
                1int
            } else {
                0int
            }) as u8
        },
    }
}

/// The first `n` squares of a board as bytes, four for each square in
/// rank-major order: its rank, its file, and the codes of what White and
/// what Black has on it.
pub open spec fn encoding_upto(board: BoardView, n: nat) -> Seq<u8>
    decreases n,
{
    if n == 0 {
        Seq::empty()
    } else {
        let square = Square::at(n - 1);
        encoding_upto(board, (n - 1) as nat) + seq![
            square.rank,
            square.file,
            piece_code(board.piece_at(square, Some(Colour::White))),
            piece_code(board.piece_at(square, Some(Colour::Black))),
        ]
    }
}

/// The code of what stands on a square tells what stands there: different
/// contents have different codes.
pub proof fn lemma_piece_code_is_exact(a: Option<PieceType>, b: Option<PieceType>)
    requires
        piece_code(a) == piece_code(b),
    ensures
        a == b,
{
}

/// Where the bytes of a board say what: square `i` has its four bytes from
/// place `4 * i` on.
pub proof fn lemma_encoding_layout(board: BoardView, n: nat, i: int)
    requires
        0 <= i < n,
    ensures
        encoding_upto(board, n).len() == 4 * n,
        encoding_upto(board, n)[4 * i] == Square::at(i).rank,
        encoding_upto(board, n)[4 * i + 1] == Square::at(i).file,
        encoding_upto(board, n)[4 * i + 2] == piece_code(
            board.piece_at(Square::at(i), Some(Colour::White)),
        ),
        encoding_upto(board, n)[4 * i + 3] == piece_code(
            board.piece_at(Square::at(i), Some(Colour::Black)),
        ),
    decreases n,
{
    lemma_encoding_length(board, (n - 1) as nat);
    if i < n - 1 {
        lemma_encoding_layout(board, (n - 1) as nat, i);
    }
}

proof fn lemma_encoding_length(board: BoardView, n: nat)
    ensures
        encoding_upto(board, n).len() == 4 * n,
    decreases n,
{
    if n > 0 {
        lemma_encoding_length(board, (n - 1) as nat);
    }
}

/// The bytes of a board tell what the board holds: two bounded boards with
/// the same bytes hold the same pieces on the same squares.
pub proof fn lemma_encoding_is_exact(a: BoardView, b: BoardView)
    requires
        a.bounded(),
        b.bounded(),
        encoding_upto(a, 64) == encoding_upto(b, 64),
    ensures
        a == b,
{
    assert forall|square: Square, colour: Colour|
        a.piece_at(square, Some(colour)) == b.piece_at(square, Some(colour)) by {
        if square.on_board() {
            let i = square.index();
            assert(Square::at(i) == square);
            lemma_encoding_layout(a, 64, i);
            lemma_encoding_layout(b, 64, i);
            lemma_piece_code_is_exact(
                a.piece_at(square, Some(Colour::White)),
                b.piece_at(square, Some(Colour::White)),
            );
            lemma_piece_code_is_exact(
                a.piece_at(square, Some(Colour::Black)),
                b.piece_at(square, Some(Colour::Black)),
            );
        } else {
            assert(!a.has_piece(square, colour) && !b.has_piece(square, colour));
        }
    }
    assert(a.white =~= b.white) by {
        assert forall|square: Square| #[trigger]
            a.white.dom().contains(square) == b.white.dom().contains(square) && (
            a.white.dom().contains(square) ==> a.white[square] == b.white[square]) by {
            assert(a.piece_at(square, Some(Colour::White)) == b.piece_at(
                square,
                Some(Colour::White),
            ));
            assert(a.has_piece(square, Colour::White) == a.white.dom().contains(square));
            assert(b.has_piece(square, Colour::White) == b.white.dom().contains(square));
        }
    }
    assert(a.black =~= b.black) by {
        assert forall|square: Square| #[trigger]
            a.black.dom().contains(square) == b.black.dom().contains(square) && (
            a.black.dom().contains(square) ==> a.black[square] == b.black[square]) by {
            assert(a.piece_at(square, Some(Colour::Black)) == b.piece_at(
                square,
                Some(Colour::Black),
            ));
            assert(a.has_piece(square, Colour::Black) == a.black.dom().contains(square));
            assert(b.has_piece(square, Colour::Black) == b.black.dom().contains(square));
        }
    }
}

/// Each piece is worth at least 1, so a list is worth at least its length;
/// and no piece is worth more than 255.
pub proof fn lemma_total_value_bounds(list: Seq<(Square, PieceType)>)
    ensures
        list.len() <= total_value(list) <= 255 * list.len(),
    decreases list.len(),
{
    if list.len() > 0 {
        lemma_total_value_bounds(list.drop_last());
    }
}

/// No pawn's place is worth more than 360 of 420.
pub proof fn lemma_total_progress_bound(list: Seq<(Square, PieceType)>, colour: Colour)
    ensures
        total_progress(list, colour) <= 420 * list.len(),
    decreases list.len(),
{
    if list.len() > 0 {
        lemma_total_progress_bound(list.drop_last(), colour);
    }
}

/// The map that results from placing the pieces of a list one after the
/// other, each on its square. A later piece replaces an earlier one on the
/// same square; a piece whose square is not on the board is left out.
pub open spec fn placed(list: Seq<(Square, PieceType)>) -> Map<Square, PieceType>
    decreases list.len(),
{
    if list.len() == 0 {
        Map::empty()
    } else {
        let before = placed(list.drop_last());
        if list.last().0.on_board() {
            before.insert(list.last().0, list.last().1)
        } else {
            before
        }
    }
}

/// The contents of one side's store as a map.
pub open spec fn store_map(store: Seq<Option<PieceType>>) -> Map<Square, PieceType> {
    Map::new(
        |square: Square| square.on_board() && store[square.index()] is Some,
        |square: Square| store[square.index()].unwrap(),
    )
}

/// The board: the grid of its squares and, for each side, the pieces on them.
#[derive(Debug)]
pub struct Board {
    squares: [[Square; 8]; 8],
    white_pieces: [Option<PieceType>; 64],
    black_pieces: [Option<PieceType>; 64],
}

impl View for Board {
    type V = BoardView;

    closed spec fn view(&self) -> BoardView {
        BoardView { white: store_map(self.white_pieces@), black: store_map(self.black_pieces@) }
    }
}

/// Two squares of the board with the same index are the same square.
proof fn lemma_distinct_slots()
    ensures
        forall|a: Square, b: Square|
            a.on_board() && b.on_board() && #[trigger] a.index() == #[trigger] b.index() ==> a
                == b,
{
}

fn slot(square: &Square) -> (index: usize)
    requires
        square.on_board(),
    ensures
        index == square.index(),
        index < 64,
{
    (square.get_rank() as usize) * 8 + (square.get_file() as usize)
}

fn place(list: &Vec<(Square, PieceType)>) -> (store: [Option<PieceType>; 64])
    ensures
        store_map(store@) == placed(list@),
{
    let mut store: [Option<PieceType>; 64] = [None;64];
    assert(store_map(store@) =~= placed(list@.take(0)));
    let mut i: usize = 0;
    while i < list.len()
        invariant
            i <= list.len(),
            store_map(store@) == placed(list@.take(i as int)),
        decreases list.len() - i,
    {
        let (square, piece) = list[i];
        assert(list@.take(i + 1).drop_last() == list@.take(i as int));
        if square.get_rank() < 8 && square.get_file() < 8 {
            let index = slot(&square);
            let ghost before = store@;
            store[index] = Some(piece);
            assert(store_map(store@) =~= store_map(before).insert(square, piece)) by {
                assert forall|other: Square| other.on_board() && other != square implies other.index()
                    != square.index() by {}
            }
        }
        i += 1;
    }
    assert(list@.take(list.len() as int) == list@);
    store
}

impl Board {
    #[verifier::type_invariant]
    closed spec fn standard_grid(self) -> bool {
        identity_grid(self.squares)
    }

    /// A board with the given pieces. The pieces of each list are placed one
    /// after the other: see [`placed`].
    pub fn new(
        squares: [[Square; 8]; 8],
        white_pieces: Vec<(Square, PieceType)>,
        black_pieces: Vec<(Square, PieceType)>,
    ) -> (board: Board)
        requires
            identity_grid(squares),
        ensures
            board@.white == placed(white_pieces@),
            board@.black == placed(black_pieces@),
    {
        Board { squares, white_pieces: place(&white_pieces), black_pieces: place(&black_pieces) }
    }

    /// A copy that holds what this board holds and shares nothing with it.
    pub fn duplicate(&self) -> (copy: Board)
        ensures
            copy@ == self@,
    {
        proof {
            use_type_invariant(self);
        }
        Board {
            squares: self.squares,
            white_pieces: self.white_pieces,
            black_pieces: self.black_pieces,
        }
    }

    /// All pieces of a board stand on its squares.
    pub proof fn lemma_bounded(&self)
        ensures
            self@.bounded(),
    {
    }

    pub fn is_square_free(&self, square: &Square) -> (free: bool)
        ensures
            free == self@.is_free(*square),
    {
        if square.get_rank() < 8 && square.get_file() < 8 {
            let index = slot(square);
            self.white_pieces[index].is_none() && self.black_pieces[index].is_none()
        } else {
            true
        }
    }

    fn is_on_board(rank: i8, file: i8) -> (inside: bool)
        ensures
            inside == (0 <= rank < 8 && 0 <= file < 8),
    {
        rank >= 0 && rank < 8 && file >= 0 && file < 8
    }

    /// The square at the given rank and file, if there is one.
    pub fn get_square(&self, rank: i8, file: i8) -> (found: Option<&Square>)
        ensures
            0 <= rank < 8 && 0 <= file < 8 ==> found == Some(
                &Square { rank: rank as u8, file: file as u8 },
            ),
            !(0 <= rank < 8 && 0 <= file < 8) ==> found is None,
    {
        proof {
            use_type_invariant(self);
        }
        if Board::is_on_board(rank, file) {
            let rank = rank as usize;
            let file = file as usize;
            assert(self.squares@[rank as int]@[file as int] == Square {
                rank: rank as u8,
                file: file as u8,
            });
            Some(&self.squares[rank][file])
        } else {
            None
        }
    }

    /// The piece on a square: see [`BoardView::piece_at`].
    pub fn get_piece(&self, square: Square, colour: Option<Colour>) -> (piece: Option<PieceType>)
        ensures
            piece == self@.piece_at(square, colour),
    {
        if square.get_rank() < 8 && square.get_file() < 8 {
            let index = slot(&square);
            match colour {
                Some(c) => match c {
                    Colour::White => self.white_pieces[index],
                    Colour::Black => self.black_pieces[index],
                },
                None => match self.white_pieces[index] {
                    Some(p) => Some(p),
                    None => self.black_pieces[index],
                },
            }
        } else {
            None
        }
    }

    /// The 64 squares in rank-major order.
    pub fn get_squares(&self) -> (squares: Vec<Square>)
        ensures
            squares@.len() == 64,
            forall|i: int| 0 <= i < 64 ==> #[trigger] squares@[i] == Square::at(i),
    {
        proof {
            use_type_invariant(self);
        }
        let mut squares: Vec<Square> = Vec::new();
        let mut rank: usize = 0;
        while rank < 8
            invariant
                rank <= 8,
                identity_grid(self.squares),
                squares@.len() == rank * 8,
                forall|i: int| 0 <= i < rank * 8 ==> #[trigger] squares@[i] == Square::at(i),
            decreases 8 - rank,
        {
            let mut file: usize = 0;
            while file < 8
                invariant
                    rank < 8,
                    file <= 8,
                    identity_grid(self.squares),
                    squares@.len() == rank * 8 + file,
                    forall|i: int|
                        0 <= i < rank * 8 + file ==> #[trigger] squares@[i] == Square::at(i),
                decreases 8 - file,
            {
                assert(self.squares@[rank as int]@[file as int] == Square {
                    rank: rank as u8,
                    file: file as u8,
                });
                squares.push(self.squares[rank][file]);
                file += 1;
            }
            rank += 1;
        }
        squares
    }

    /// The pieces of one side with their squares, in rank-major order of the
    /// squares.
    pub fn get_pieces(&self, colour: Colour) -> (pieces: Vec<(Square, PieceType)>)
        ensures
            pieces@ == self@.listing(colour, 64),
    {
        let mut pieces: Vec<(Square, PieceType)> = Vec::new();
        let mut index: usize = 0;
        while index < 64
            invariant
                index <= 64,
                pieces@ == self@.listing(colour, index as nat),
            decreases 64 - index,
        {
            let square = Square::new((index / 8) as u8, (index % 8) as u8);
            assert(square == Square::at(index as int));
            let found = match colour {
                Colour::White => self.white_pieces[index],
                Colour::Black => self.black_pieces[index],
            };
            if let Some(piece) = found {
                pieces.push((square, piece));
            }
            index += 1;
        }
        pieces
    }

    /// Makes a move on the board: see [`BoardView::after`]. The mover must
    /// have a piece on the move's origin, and the target must be a square of
    /// the board; whether the move is legal is the caller's matter.
    pub fn execute_move(&mut self, play: &HalfMove)
        requires
            old(self)@.has_piece(play.from, play.piece.colour()),
            play.to.on_board(),
        ensures
            final(self)@ == old(self)@.after(*play),
    {
        let from_square = play.get_from();
        let to_square = play.get_to();
        let colour = play.get_piece().get_colour();
        let mut piece = self.get_piece(from_square, Some(colour)).unwrap().duplicate();

        // The piece has moved now
        piece.set_first_move(false);

        match colour {
            Colour::White => self.execute_white_move(
                piece,
                from_square,
                to_square,
                play.is_capture(),
                play.is_promotion(),
            ),
            Colour::Black => self.execute_black_move(
                piece,
                from_square,
                to_square,
                play.is_capture(),
                play.is_promotion(),
            ),
        }
    }

    fn execute_white_move(
        &mut self,
        piece: PieceType,
        from: Square,
        to: Square,
        is_capture: bool,
        is_promotion: bool,
    )
        requires
            from.on_board(),
            to.on_board(),
        ensures
            final(self)@.white == old(self)@.white.remove(from).insert(
                to,
                if is_promotion {
                    PieceType::Queen(Queen { colour: Colour::White })
                } else {
                    piece
                },
            ),
            final(self)@.black == if is_capture {
                old(self)@.black.remove(to)
            } else {
                old(self)@.black
            },
    {
        proof {
            use_type_invariant(&*self);
            lemma_distinct_slots();
        }
        let ghost before = self@;
        // The black piece on the target square, if any, is taken
        if is_capture {
            self.black_pieces[slot(&to)] = None;
        }
        // The white piece leaves its square
        self.white_pieces[slot(&from)] = None;

        if is_promotion {
            let mut promoted_piece = PieceType::Queen(Queen::new(Colour::White));
            promoted_piece.set_first_move(false);
            self.white_pieces[slot(&to)] = Some(promoted_piece);
        } else {
            self.white_pieces[slot(&to)] = Some(piece);
        }
        assert(self@.white =~= before.white.remove(from).insert(
            to,
            if is_promotion {
                PieceType::Queen(Queen { colour: Colour::White })
            } else {
                piece
            },
        ));
        assert(self@.black =~= if is_capture {
            before.black.remove(to)
        } else {
            before.black
        });
    }

    fn execute_black_move(
        &mut self,
        piece: PieceType,
        from: Square,
        to: Square,
        is_capture: bool,
        is_promotion: bool,
    )
        requires
            from.on_board(),
            to.on_board(),
        ensures
            final(self)@.black == old(self)@.black.remove(from).insert(
                to,
                if is_promotion {
                    PieceType::Queen(Queen { colour: Colour::Black })
                } else {
                    piece
                },
            ),
            final(self)@.white == if is_capture {
                old(self)@.white.remove(to)
            } else {
                old(self)@.white
            },
    {
        proof {
            use_type_invariant(&*self);
            lemma_distinct_slots();
        }
        let ghost before = self@;
        // The white piece on the target square, if any, is taken
        if is_capture {
            self.white_pieces[slot(&to)] = None;
        }
        // The black piece leaves its square
        self.black_pieces[slot(&from)] = None;

        if is_promotion {
            let mut promoted_piece = PieceType::Queen(Queen::new(Colour::Black));
            promoted_piece.set_first_move(false);
            self.black_pieces[slot(&to)] = Some(promoted_piece);
        } else {
            self.black_pieces[slot(&to)] = Some(piece);
        }
        assert(self@.black =~= before.black.remove(from).insert(
            to,
            if is_promotion {
                PieceType::Queen(Queen { colour: Colour::Black })
            } else {
                piece
            },
        ));
        assert(self@.white =~= if is_capture {
            before.white.remove(to)
        } else {
            before.white
        });
    }

    /// Whether the board is consistent: see [`BoardView::consistent`].
    pub fn is_consistent(&self) -> (consistent: bool)
        ensures
            consistent == self@.consistent(),
    {
        proof {
            lemma_distinct_slots();
        }
        let mut index: usize = 0;
        while index < 64
            invariant
                index <= 64,
                forall|square: Square|
                    square.on_board() && square.index() < index ==> #[trigger] self@.sound_at(
                        square,
                    ),
            decreases 64 - index,
        {
            let ghost here = Square::at(index as int);
            assert(here.on_board() && here.index() == index);
            let white = self.white_pieces[index];
            let black = self.black_pieces[index];
            assert(self@.has_piece(here, Colour::White) == white is Some);
            assert(self@.has_piece(here, Colour::Black) == black is Some);
            let sound = match white {
                Some(p) => black.is_none() && p.get_colour() == Colour::White,
                None => match black {
                    Some(p) => p.get_colour() == Colour::Black,
                    None => true,
                },
            };
            assert(sound == self@.sound_at(here));
            if !sound {
                assert(!self@.consistent()) by {
                    if self@.consistent() {
                        assert(self@.has_piece(here, Colour::White) || self@.has_piece(
                            here,
                            Colour::Black,
                        ));
                        assert(!(self@.has_piece(here, Colour::White) && self@.has_piece(
                            here,
                            Colour::Black,
                        )));
                    }
                }
                return false;
            }
            assert forall|square: Square|
                square.on_board() && square.index() < index + 1 implies #[trigger] self@.sound_at(
                square,
            ) by {
                if square.index() == index {
                    assert(square == here);
                }
            }
            index += 1;
        }
        assert(self@.consistent()) by {
            assert forall|square: Square, colour: Colour| #[trigger]
                self@.has_piece(square, colour) implies self@.pieces(colour)[square].colour()
                == colour by {
                assert(square.on_board() && square.index() < 64);
                assert(self@.sound_at(square));
            }
            assert forall|square: Square|
                !(#[trigger] self@.has_piece(square, Colour::White) && self@.has_piece(
                    square,
                    Colour::Black,
                )) by {
                if self@.has_piece(square, Colour::White) {
                    assert(square.on_board() && square.index() < 64);
                    assert(self@.sound_at(square));
                }
            }
        }
        true
    }

    /// Whether the given side has a king on the board.
    pub fn has_king(&self, colour: Colour) -> (found: bool)
        ensures
            found == self@.has_king(colour),
    {
        let pieces = self.get_pieces(colour);
        let mut i: usize = 0;
        while i < pieces.len()
            invariant
                i <= pieces.len(),
                pieces@ == self@.listing(colour, 64),
                first_king(pieces@, 0) == first_king(pieces@, i as nat),
            decreases pieces.len() - i,
        {
            if pieces[i].1.get_type() == PieceType::King(King::new(colour)) {
                return true;
            }
            i += 1;
        }
        false
    }

    /// Whether the move gives check: whether, once it is made, the king of
    /// the side that did not move stands under check.
    pub fn is_check(&self, play: HalfMove) -> (check: bool)
        requires
            self@.has_piece(play.from, play.piece.colour()),
            play.to.on_board(),
            self@.after(play).has_king(play.piece.colour().opposite()),
        ensures
            check == self@.after(play).under_check(play.piece.colour().opposite()),
    {
        let mut board = self.duplicate();
        board.execute_move(&play);

        board.is_under_check(play.get_piece().get_colour().get_opposite())
    }

    /// Whether the king of the given side is under check. The side must have
    /// a king.
    pub fn is_under_check(&self, colour: Colour) -> (check: bool)
        requires
            self@.has_king(colour),
        ensures
            check == self@.under_check(colour),
    {
        let pieces = self.get_pieces(colour);
        let mut king_square: Option<Square> = None;
        let mut i: usize = 0;
        while i < pieces.len()
            invariant_except_break
                king_square is None,
                first_king(pieces@, 0) == first_king(pieces@, i as nat),
            invariant
                i <= pieces.len(),
                pieces@ == self@.listing(colour, 64),
            ensures
                king_square == first_king(pieces@, 0),
            decreases pieces.len() - i,
        {
            let (square, piece) = pieces[i];
            if piece.get_type() == PieceType::King(King::new(colour)) {
                king_square = Some(square);
                break ;
            }
            i += 1;
        }

        let king_square = king_square.unwrap();

        self.is_under_control(&king_square, colour.get_opposite())
    }

    /// Whether some piece of the given side controls the square.
    pub fn is_under_control(&self, square: &Square, colour: Colour) -> (controlled: bool)
        ensures
            controlled == self@.controlled(*square, colour),
    {
        let pieces = self.get_pieces(colour);
        proof {
            lemma_listing(self@, colour, 64);
        }
        let mut i: usize = 0;
        while i < pieces.len()
            invariant
                i <= pieces.len(),
                pieces@ == self@.listing(colour, 64),
                forall|j: int|
                    0 <= j < i ==> !controls(
                        self@,
                        (#[trigger] pieces@[j]).1,
                        pieces@[j].0,
                        *square,
                    ),
            decreases pieces.len() - i,
        {
            let (origin, piece) = pieces[i];
            if piece.is_controlling(self, &origin, square) {
                proof {
                    lemma_listing(self@, colour, 64);
                    assert(pieces@[i as int] == (origin, piece));
                    assert(self@.has_piece(origin, colour));
                }
                return true;
            }
            i += 1;
        }
        proof {
            lemma_listing(self@, colour, 64);
            assert forall|origin: Square|
                origin.on_board() && #[trigger] self@.has_piece(origin, colour) implies !controls(
                self@,
                self@.pieces(colour)[origin],
                origin,
                *square,
            ) by {
                let j = choose|j: int|
                    0 <= j < pieces@.len() && #[trigger] pieces@[j] == (
                        origin,
                        self@.pieces(colour)[origin],
                    );
                assert(!controls(self@, pieces@[j].1, pieces@[j].0, *square));
            }
        }
        false
    }

    fn material_of(&self, colour: Colour) -> (sum: u64)
        ensures
            sum == self@.material(colour),
            self@.count(colour) <= sum <= 255 * 64,
    {
        let pieces = self.get_pieces(colour);
        proof {
            lemma_listing(self@, colour, 64);
            lemma_total_value_bounds(pieces@);
        }
        let mut sum: u64 = 0;
        let mut i: usize = 0;
        while i < pieces.len()
            invariant
                i <= pieces.len() <= 64,
                sum == total_value(pieces@.take(i as int)),
                sum <= 255 * i,
            decreases pieces.len() - i,
        {
            assert(pieces@.take(i + 1).drop_last() == pieces@.take(i as int));
            sum += pieces[i].1.get_value() as u64;
            i += 1;
        }
        assert(pieces@.take(pieces.len() as int) == pieces@);
        sum
    }

    /// The material of one side as a fraction of the other side's: the sum
    /// of the values of its pieces over the sum of the values of the other
    /// side's pieces. Each side must have a piece. The fraction is then a
    /// number greater than zero.
    pub fn evaluate_material(&self, colour: Colour) -> (ratio: Ratio)
        requires
            self@.count(colour) > 0,
            self@.count(colour.opposite()) > 0,
        ensures
            ratio.num == self@.material(colour),
            ratio.den == self@.material(colour.opposite()),
            ratio.is_positive_finite(),
            ratio.num <= 255 * 64,
            ratio.den <= 255 * 64,
    {
        let allie_material = self.material_of(colour);
        let enemy_material = self.material_of(colour.get_opposite());

        Ratio::new(allie_material, enemy_material)
    }

    fn activity_of(&self, squares: &Vec<Square>, colour: Colour) -> (number: u64)
        requires
            squares@.len() == 64,
            forall|i: int| 0 <= i < 64 ==> #[trigger] squares@[i] == Square::at(i),
        ensures
            number == self@.activity(colour),
            number <= 64,
    {
        let mut number: u64 = 0;
        let mut i: usize = 0;
        while i < squares.len()
            invariant
                i <= squares.len() == 64,
                forall|i: int| 0 <= i < 64 ==> #[trigger] squares@[i] == Square::at(i),
                number == self@.activity_upto(colour, i as nat),
                number <= i,
            decreases squares.len() - i,
        {
            if self.is_under_control(&squares[i], colour) {
                number += 1;
            }
            i += 1;
        }
        number
    }

    /// The activity of one side as a fraction of the other side's: the
    /// number of squares that it controls over the number of squares that the
    /// other side controls. Where each side controls a square, the fraction
    /// is a number greater than zero.
    pub fn evaluate_activity(&self, colour: Colour) -> (ratio: Ratio)
        ensures
            ratio.num == self@.activity(colour),
            ratio.den == self@.activity(colour.opposite()),
            self@.activity(colour) > 0 && self@.activity(colour.opposite()) > 0
                ==> ratio.is_positive_finite(),
            ratio.num <= 64,
            ratio.den <= 64,
    {
        let squares = self.get_squares();

        let allie_activity = self.activity_of(&squares, colour);
        let enemy_activity = self.activity_of(&squares, colour.get_opposite());

        Ratio::new(allie_activity, enemy_activity)
    }

    /// How near the pawns of one side are to promotion, as a number of
    /// 420ths: see [`BoardView::proximity`].
    pub fn evaluate_proximity(&self, colour: Colour) -> (ratio: Ratio)
        ensures
            ratio.num == self@.proximity(colour),
            ratio.den == 420,
            ratio.num <= 420 * 64,
    {
        let pieces = self.get_pieces(colour);
        proof {
            lemma_listing(self@, colour, 64);
            lemma_total_progress_bound(pieces@, colour);
        }
        let mut sum: u64 = 0;
        let mut i: usize = 0;
        while i < pieces.len()
            invariant
                i <= pieces.len() <= 64,
                pieces@ == self@.listing(colour, 64),
                sum == total_progress(pieces@.take(i as int), colour),
                sum <= 420 * i,
            decreases pieces.len() - i,
        {
            assert(pieces@.take(i + 1).drop_last() == pieces@.take(i as int));
            let (square, piece) = pieces[i];
            if piece.get_type() == PieceType::Pawn(Pawn::new(colour)) {
                proof {
                    lemma_listing(self@, colour, 64);
                    assert(pieces@[i as int].0.on_board());
                }
                let rank = square.get_rank();
                let travelled: u8 = match colour {
                    Colour::White => rank,
                    Colour::Black => 7 - rank,
                };
                let distance: u64 = if travelled < 1 {
                    1
                } else {
                    travelled as u64
                };
                sum += 420 - 420 / distance;
            }
            i += 1;
        }
        assert(pieces@.take(pieces.len() as int) == pieces@);
        Ratio::new(sum, 420)
    }

    fn code_of(piece: &Option<PieceType>) -> (code: u8)
        ensures
            code == piece_code(*piece),
    {
        match piece {
            None => 0,
            Some(p) => {
                let side: u8 = match p.get_colour() {
                    Colour::White => 2,
                    Colour::Black => 0,
                };
                let (kind, fresh): (u8, bool) = match p {
                    PieceType::Pawn(x) => (1, x.first_move),
                    PieceType::Knight(_) => (2, false),
                    PieceType::Bishop(_) => (3, false),
                    PieceType::Rook(x) => (4, x.first_move),
                    PieceType::Queen(_) => (5, false),
                    PieceType::King(x) => (6, x.first_move),
                };
                kind * 4 + side + if fresh {
                    1
                } else {
                    0
                }
            },
        }
    }

    /// The board as bytes: see [`encoding_upto`]. Two boards have the same
    /// bytes exactly if they hold the same pieces on the same squares: see
    /// [`lemma_encoding_is_exact`].
    pub fn encoding(&self) -> (bytes: Vec<u8>)
        ensures
            bytes@ == encoding_upto(self@, 64),
    {
        let mut bytes: Vec<u8> = Vec::new();
        let mut index: usize = 0;
        while index < 64
            invariant
                index <= 64,
                bytes@ == encoding_upto(self@, index as nat),
            decreases 64 - index,
        {
            let ghost before = bytes@;
            let rank = (index / 8) as u8;
            let file = (index % 8) as u8;
            assert(Square { rank, file } == Square::at(index as int));
            let white = Board::code_of(&self.white_pieces[index]);
            let black = Board::code_of(&self.black_pieces[index]);
            bytes.push(rank);
            bytes.push(file);
            bytes.push(white);
            bytes.push(black);
            assert(bytes@ =~= before + seq![rank, file, white, black]);
            index += 1;
        }
        bytes
    }

    /// Whether the square is on the rank on which pawns of the given side are
    /// promoted.
    pub fn is_promotion_square(&self, square: &Square, colour: Colour) -> (far: bool)
        ensures
            far == BoardView::promotion_square(*square, colour),
    {
        match colour {
            Colour::White => square.get_rank() == 7,
            Colour::Black => square.get_rank() == 0,
        }
    }
}

} // verus!
