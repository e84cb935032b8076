use vstd::prelude::*;
use std::collections::hash_map::DefaultHasher;
use std::hash::Hasher;
use vstd::std_specs::hash::DefaultHasherAdditionalSpecFns;
use crate::model::board::board::{encoding_upto, Board, BoardView};
use crate::model::board::square::Square;
use crate::model::piece::bishop::Bishop;
use crate::model::piece::color::Colour;
use crate::model::piece::king::King;
use crate::model::piece::knight::Knight;
use crate::model::piece::pawn::Pawn;
use crate::model::piece::piece::PieceType;
use crate::model::piece::queen::Queen;
use crate::model::piece::rook::Rook;

verus! {

/// The number of half-moves without a capture or a pawn move after which a
/// game is drawn: fifty moves of each side.
pub const MAX_CONSECUTIVE_MOVES: u8 = 100;

/// The weight of material in the worth of a position.
pub const MATERIAL_FACTOR: u64 = 1;

/// The weight of activity in the worth of a position.
pub const ACTIVITY_FACTOR: u64 = 1;

/// The weight of the pawns' progress in the worth of a position.
pub const PROXIMITY_FACTOR: u64 = 1;

/// The rank as players count it, from 1.
pub fn normalize_rank(rank: u8) -> (number: u8)
    requires
        rank < u8::MAX,
    ensures
        number == rank + 1,
{
    rank + 1
}

/// The letter of a file, `a` for the first.
pub fn normalize_file(file: u8) -> (letter: char)
    requires
        file <= 158,
    ensures
        letter == ((97 + file) as u8) as char,
{
    (97 + file) as char
}

/// The grid in which the square at row `r` and column `f` is the pair `(r, f)`.
pub open spec fn identity_grid(grid: [[Square; 8]; 8]) -> bool {
    forall|r: int, f: int|
        0 <= r < 8 && 0 <= f < 8 ==> #[trigger] grid@[r]@[f] == (Square {
            rank: r as u8,
            file: f as u8,
        })
}

fn init_rank(rank: u8) -> (row: [Square; 8])
    ensures
        forall|f: int| 0 <= f < 8 ==> #[trigger] row@[f] == (Square { rank, file: f as u8 }),
{
    [
        Square::new(rank, 0),
        Square::new(rank, 1),
        Square::new(rank, 2),
        Square::new(rank, 3),
        Square::new(rank, 4),
        Square::new(rank, 5),
        Square::new(rank, 6),
        Square::new(rank, 7),
    ]
}

/// The 8×8 grid of squares, rank by rank.
pub fn init_squares() -> (grid: [[Square; 8]; 8])
    ensures
        identity_grid(grid),
{
    [
        init_rank(0),
        init_rank(1),
        init_rank(2),
        init_rank(3),
        init_rank(4),
        init_rank(5),
        init_rank(6),
        init_rank(7),
    ]
}

/// The byte that stands for the side to move: 1 for White, 0 for Black.
pub open spec fn colour_code(colour: Colour) -> u8 {
    match colour {
        Colour::White => 1,
        Colour::Black => 0,
    }
}

/// The hash of a position: of what the board holds and of the side to move.
/// It is what the standard hasher makes of the board's bytes followed by the
/// byte of the side.
pub open spec fn position_hash(board: BoardView, colour: Colour) -> u64 {
    DefaultHasher::spec_finish(seq![encoding_upto(board, 64), seq![colour_code(colour)]])
}

/// The hash of a position: see [`position_hash`]. Equal boards with the same
/// side to move have equal hashes.
pub fn hash_position(board: &Board, colour: Colour) -> (hash: u64)
    ensures
        hash == position_hash(board@, colour),
{
    let mut state = DefaultHasher::new();
    let bytes = board.encoding();
    state.write(bytes.as_slice());
    let side: [u8; 1] = [
        match colour {
            Colour::White => 1,
            Colour::Black => 0,
        },
    ];
    state.write(side.as_slice());
    assert(side@ =~= seq![colour_code(colour)]);
    assert(state@ =~= seq![encoding_upto(board@, 64), seq![colour_code(colour)]]);

    state.finish()
}

/// A copy of a board hashes as the board does: to copy a board and hash the
/// copy gives the hash of the board itself, whichever side is to move.
pub proof fn lemma_copy_keeps_hash(board: &Board, copy: &Board, colour: Colour)
    requires
        copy@ == board@,
    ensures
        position_hash(copy@, colour) == position_hash(board@, colour),
{
}

/// The rank on which a side's pieces other than pawns start.
pub open spec fn home_rank(colour: Colour) -> u8 {
    match colour {
        Colour::White => 0,
        Colour::Black => 7,
    }
}

/// The rank on which a side's pawns start.
pub open spec fn pawn_rank(colour: Colour) -> u8 {
    match colour {
        Colour::White => 1,
        Colour::Black => 6,
    }
}

/// The pieces of one side at the start of a game, each with its square: on
/// the home rank rook, knight, bishop, queen, king, bishop, knight and rook,
/// from the first file to the last, then the eight pawns on the rank before
/// them. No piece has moved.
pub open spec fn initial_pieces(colour: Colour) -> Seq<(Square, PieceType)> {
    let home = home_rank(colour);
    let front = pawn_rank(colour);
    let pawn = PieceType::Pawn(Pawn { colour, first_move: true });
    seq![
        (Square { rank: home, file: 0 }, PieceType::Rook(Rook { colour, first_move: true })),
        (Square { rank: home, file: 1 }, PieceType::Knight(Knight { colour })),
        (Square { rank: home, file: 2 }, PieceType::Bishop(Bishop { colour })),
        (Square { rank: home, file: 3 }, PieceType::Queen(Queen { colour })),
        (Square { rank: home, file: 4 }, PieceType::King(King { colour, first_move: true })),
        (Square { rank: home, file: 5 }, PieceType::Bishop(Bishop { colour })),
        (Square { rank: home, file: 6 }, PieceType::Knight(Knight { colour })),
        (Square { rank: home, file: 7 }, PieceType::Rook(Rook { colour, first_move: true })),
        (Square { rank: front, file: 0 }, pawn),
        (Square { rank: front, file: 1 }, pawn),
        (Square { rank: front, file: 2 }, pawn),
        (Square { rank: front, file: 3 }, pawn),
        (Square { rank: front, file: 4 }, pawn),
        (Square { rank: front, file: 5 }, pawn),
        (Square { rank: front, file: 6 }, pawn),
        (Square { rank: front, file: 7 }, pawn),
    ]
}

fn init_pieces(colour: Colour, home: u8, front: u8) -> (pieces: Vec<(Square, PieceType)>)
    requires
        home == home_rank(colour),
        front == pawn_rank(colour),
    ensures
        pieces@ == initial_pieces(colour),
{
    let mut pieces: Vec<(Square, PieceType)> = Vec::new();
    pieces.push((Square::new(home, 0), PieceType::Rook(Rook::new(colour))));
    pieces.push((Square::new(home, 1), PieceType::Knight(Knight::new(colour))));
    pieces.push((Square::new(home, 2), PieceType::Bishop(Bishop::new(colour))));
    pieces.push((Square::new(home, 3), PieceType::Queen(Queen::new(colour))));
    pieces.push((Square::new(home, 4), PieceType::King(King::new(colour))));
    pieces.push((Square::new(home, 5), PieceType::Bishop(Bishop::new(colour))));
    pieces.push((Square::new(home, 6), PieceType::Knight(Knight::new(colour))));
    pieces.push((Square::new(home, 7), PieceType::Rook(Rook::new(colour))));
    pieces.push((Square::new(front, 0), PieceType::Pawn(Pawn::new(colour))));
    pieces.push((Square::new(front, 1), PieceType::Pawn(Pawn::new(colour))));
    pieces.push((Square::new(front, 2), PieceType::Pawn(Pawn::new(colour))));
    pieces.push((Square::new(front, 3), PieceType::Pawn(Pawn::new(colour))));
    pieces.push((Square::new(front, 4), PieceType::Pawn(Pawn::new(colour))));
    pieces.push((Square::new(front, 5), PieceType::Pawn(Pawn::new(colour))));
    pieces.push((Square::new(front, 6), PieceType::Pawn(Pawn::new(colour))));
    pieces.push((Square::new(front, 7), PieceType::Pawn(Pawn::new(colour))));
    assert(pieces@ =~= initial_pieces(colour));
    pieces
}

/// White's pieces at the start of a game: see [`initial_pieces`].
pub fn init_white_pieces() -> (pieces: Vec<(Square, PieceType)>)
    ensures
        pieces@ == initial_pieces(Colour::White),
{
    init_pieces(Colour::White, 0, 1)
}

/// Black's pieces at the start of a game: see [`initial_pieces`].
pub fn init_black_pieces() -> (pieces: Vec<(Square, PieceType)>)
    ensures
        pieces@ == initial_pieces(Colour::Black),
{
    init_pieces(Colour::Black, 7, 6)
}

/// `String::push` of the standard library, which appends one character to
/// the end of a string: after the call the string holds what it held, then
/// the character.
pub assume_specification[ String::push ](text: &mut String, ch: char)
    ensures
        final(text)@ == old(text)@.push(ch),
;

/// The letter of a file as [`normalize_file`] gives it.
pub open spec fn file_letter(file: u8) -> char {
    ((97 + file) as u8) as char
}

/// The character of a decimal digit.
pub open spec fn digit(value: int) -> char {
    ((48 + value) as u8) as char
}

/// A number in decimal notation.
pub open spec fn decimal(number: nat) -> Seq<char>
    decreases number,
{
    if number < 10 {
        seq![digit(number as int)]
    } else {
        decimal(number / 10).push(digit((number % 10) as int))
    }
}

/// Appends a number in decimal notation to a text.
pub fn push_decimal(text: &mut String, number: u8)
    ensures
        final(text)@ == old(text)@ + decimal(number as nat),
{
    let ghost before = text@;
    proof {
        reveal_with_fuel(decimal, 3);
    }
    if number >= 100 {
        text.push((48 + number / 100) as char);
    }
    if number >= 10 {
        text.push((48 + (number / 10) % 10) as char);
    }
    text.push((48 + number % 10) as char);
    assert(text@ =~= before + decimal(number as nat));
}

} // verus!
