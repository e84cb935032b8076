use vstd::prelude::*;
use crate::game::play::HalfMove;
use crate::model::board::board::{placed, BoardView};
use crate::model::board::laws::{lemma_has_king, playable};
use crate::model::board::square::Square;
use crate::model::piece::bishop::{bishop_moves, Bishop};
use crate::model::piece::color::Colour;
use crate::model::piece::king::{king_moves, King};
use crate::model::piece::knight::{knight_moves, Knight};
use crate::model::piece::pawn::{
    lemma_pawn_forward_moves, pawn_advances, pawn_captures, pawn_moves, Pawn,
};
use crate::model::piece::piece::{controls, moves_of, step_moves, PieceType};
use crate::model::piece::queen::{queen_moves, Queen};
use crate::model::piece::rook::{rook_moves, Rook};
use crate::utils::{home_rank, initial_pieces, pawn_rank};

verus! {

/// The position from which a game starts.
pub open spec fn first_position() -> BoardView {
    BoardView {
        white: placed(initial_pieces(Colour::White)),
        black: placed(initial_pieces(Colour::Black)),
    }
}

/// The piece that starts on the given file of a side's home rank.
pub open spec fn home_piece(colour: Colour, file: u8) -> PieceType {
    if file == 0 || file == 7 {
        PieceType::Rook(Rook { colour, first_move: true })
    } else if file == 1 || file == 6 {
        PieceType::Knight(Knight { colour })
    } else if file == 2 || file == 5 {
        PieceType::Bishop(Bishop { colour })
    } else if file == 3 {
        PieceType::Queen(Queen { colour })
    } else {
        PieceType::King(King { colour, first_move: true })
    }
}

/// What placing a list of pieces on squares of the board gives: a piece
/// stands on a square exactly if the list has an entry for it, and it is the
/// piece of the last such entry.
pub proof fn lemma_placed(list: Seq<(Square, PieceType)>)
    ensures
        forall|square: Square| #[trigger]
            placed(list).dom().contains(square) <==> square.on_board() && exists|i: int|
                0 <= i < list.len() && (#[trigger] list[i]).0 == square,
        forall|i: int|
            0 <= i < list.len() && (#[trigger] list[i]).0.on_board() && (forall|j: int|
                i < j < list.len() ==> (#[trigger] list[j]).0 != list[i].0) ==> placed(
                list,
            )[list[i].0] == list[i].1,
    decreases list.len(),
{
    if list.len() > 0 {
        let before = list.drop_last();
        lemma_placed(before);
        let last = list[list.len() - 1];
        assert(list.last() == last);
        assert forall|square: Square| #[trigger]
            placed(list).dom().contains(square) implies square.on_board() && exists|i: int|
            0 <= i < list.len() && (#[trigger] list[i]).0 == square by {
            if last.0.on_board() && square == last.0 {
                assert(list[list.len() - 1].0 == square);
            } else {
                assert(placed(before).dom().contains(square));
                let i = choose|i: int| 0 <= i < before.len() && (#[trigger] before[i]).0 == square;
                assert(list[i] == before[i]);
                assert(list[i].0 == square);
            }
        }
        assert forall|square: Square|
            square.on_board() && (exists|i: int|
                0 <= i < list.len() && (#[trigger] list[i]).0 == square) implies #[trigger] placed(
            list,
        ).dom().contains(square) by {
            let i = choose|i: int| 0 <= i < list.len() && (#[trigger] list[i]).0 == square;
            if i < list.len() - 1 {
                assert(before[i] == list[i]);
                assert(before[i].0 == square);
                assert(placed(before).dom().contains(square));
            }
        }
        assert forall|i: int|
            0 <= i < list.len() && (#[trigger] list[i]).0.on_board() && (forall|j: int|
                i < j < list.len() ==> (#[trigger] list[j]).0 != list[i].0) implies placed(
            list,
        )[list[i].0] == list[i].1 by {
            if i < list.len() - 1 {
                assert(before[i] == list[i]);
                assert(list[list.len() - 1].0 != list[i].0);
                assert forall|j: int| i < j < before.len() implies (#[trigger] before[j]).0
                    != before[i].0 by {
                    assert(before[j] == list[j]);
                }
            }
        }
    }
}

/// Where the pieces of a side stand at the start: on each square of its
/// home rank the piece of that file, and on each square of the rank before it
/// a pawn; nowhere else. No piece has moved.
pub proof fn lemma_first_pieces(colour: Colour)
    ensures
        forall|square: Square| #[trigger]
            placed(initial_pieces(colour)).dom().contains(square) <==> square.on_board() && (
            square.rank == home_rank(colour) || square.rank == pawn_rank(colour)),
        forall|square: Square|
            square.on_board() && square.rank == home_rank(colour) ==> #[trigger] placed(
                initial_pieces(colour),
            )[square] == home_piece(colour, square.file),
        forall|square: Square|
            square.on_board() && square.rank == pawn_rank(colour) ==> #[trigger] placed(
                initial_pieces(colour),
            )[square] == PieceType::Pawn(Pawn { colour, first_move: true }),
{
    let list = initial_pieces(colour);
    let home = home_rank(colour);
    let front = pawn_rank(colour);
    lemma_placed(list);
    assert(list.len() == 16);
    assert forall|i: int| 0 <= i < 16 implies (#[trigger] list[i]).0 == (if i < 8 {
        Square { rank: home, file: i as u8 }
    } else {
        Square { rank: front, file: (i - 8) as u8 }
    }) && list[i].1 == (if i < 8 {
        home_piece(colour, i as u8)
    } else {
        PieceType::Pawn(Pawn { colour, first_move: true })
    }) by {
        assert(i == 0 || i == 1 || i == 2 || i == 3 || i == 4 || i == 5 || i == 6 || i == 7 || i
            == 8 || i == 9 || i == 10 || i == 11 || i == 12 || i == 13 || i == 14 || i == 15);
    }
    assert forall|square: Square| #[trigger]
        placed(list).dom().contains(square) <==> square.on_board() && (square.rank == home
            || square.rank == front) by {
        if square.on_board() && square.rank == home {
            assert(list[square.file as int].0 == square);
        }
        if square.on_board() && square.rank == front {
            assert(list[square.file + 8].0 == square);
        }
        if placed(list).dom().contains(square) {
            let i = choose|i: int| 0 <= i < list.len() && (#[trigger] list[i]).0 == square;
        }
    }
    assert forall|square: Square| square.on_board() && square.rank == home implies #[trigger] placed(
        list,
    )[square] == home_piece(colour, square.file) by {
        let i = square.file as int;
        assert(list[i].0 == square);
        assert forall|j: int| i < j < list.len() implies (#[trigger] list[j]).0 != list[i].0 by {}
    }
    assert forall|square: Square|
        square.on_board() && square.rank == front implies #[trigger] placed(list)[square]
        == PieceType::Pawn(Pawn { colour, first_move: true }) by {
        let i = square.file + 8;
        assert(list[i].0 == square);
        assert forall|j: int| i < j < list.len() implies (#[trigger] list[j]).0 != list[i].0 by {}
    }
}

/// All moves of the sequence end on the given rank or below it.
spec fn all_below(moves: Seq<HalfMove>, rank: u8) -> bool {
    forall|i: int| 0 <= i < moves.len() ==> (#[trigger] moves[i]).to.rank <= rank
}

proof fn lemma_concat_below(a: Seq<HalfMove>, b: Seq<HalfMove>, rank: u8)
    requires
        all_below(a, rank),
        all_below(b, rank),
    ensures
        all_below(a + b, rank),
{
    assert forall|i: int| 0 <= i < (a + b).len() implies (#[trigger] (a + b)[i]).to.rank
        <= rank by {
        if i < a.len() {
            assert((a + b)[i] == a[i]);
        } else {
            assert((a + b)[i] == b[i - a.len()]);
        }
    }
}

/// In the first position no candidate move of White goes beyond the fourth
/// rank.
proof fn lemma_first_moves_stay_low(origin: Square)
    requires
        origin.on_board(),
        first_position().has_piece(origin, Colour::White),
    ensures
        all_below(moves_of(first_position(), first_position().white[origin], origin), 3),
{
    let board = first_position();
    let piece = board.white[origin];
    let none = Seq::<HalfMove>::empty();
    lemma_first_pieces(Colour::White);
    lemma_first_pieces(Colour::Black);
    assert forall|square: Square| square.on_board() implies (#[trigger] board.has_piece(
        square,
        Colour::White,
    ) <==> square.rank <= 1) && (#[trigger] board.has_piece(square, Colour::Black)
        <==> square.rank >= 6) by {}
    if origin.rank == 1 {
        let pawn = Pawn { colour: Colour::White, first_move: true };
        assert(piece == PieceType::Pawn(pawn));
        lemma_pawn_forward_moves(board, pawn, origin);
        let advances = pawn_advances(board, pawn, origin);
        assert(all_below(advances, 3)) by {
            assert forall|i: int| 0 <= i < advances.len() implies (#[trigger] advances[i]).to.rank
                <= 3 by {
                assert(i == 0 || i == 1);
                assert((i + 1) * 1 == i + 1);
            }
        }
        assert(pawn_captures(board, pawn, origin) =~= none);
        assert(pawn_moves(board, pawn, origin) =~= advances);
    } else {
        assert(origin.rank == 0);
        assert(piece == home_piece(Colour::White, origin.file));
        match piece {
            PieceType::Knight(_) => {
                let s1 = step_moves(board, piece, origin, 1, 2);
                let s2 = step_moves(board, piece, origin, 2, 1);
                let s3 = step_moves(board, piece, origin, 2, -1);
                let s4 = step_moves(board, piece, origin, 1, -2);
                let s5 = step_moves(board, piece, origin, -1, -2);
                let s6 = step_moves(board, piece, origin, -2, -1);
                let s7 = step_moves(board, piece, origin, -2, 1);
                let s8 = step_moves(board, piece, origin, -1, 2);
                lemma_concat_below(none, s1, 3);
                lemma_concat_below(none + s1, s2, 3);
                lemma_concat_below(none + s1 + s2, s3, 3);
                lemma_concat_below(none + s1 + s2 + s3, s4, 3);
                lemma_concat_below(none + s1 + s2 + s3 + s4, s5, 3);
                lemma_concat_below(none + s1 + s2 + s3 + s4 + s5, s6, 3);
                lemma_concat_below(none + s1 + s2 + s3 + s4 + s5 + s6, s7, 3);
                lemma_concat_below(none + s1 + s2 + s3 + s4 + s5 + s6 + s7, s8, 3);
                assert(none + s1 =~= s1);
                assert(knight_moves(board, piece, origin) == none + s1 + s2 + s3 + s4 + s5 + s6
                    + s7 + s8);
            },
            PieceType::King(_) => {
                assert(king_moves(board, piece, origin) =~= none);
            },
            PieceType::Rook(_) => {
                assert(rook_moves(board, piece, origin) =~= none);
            },
            PieceType::Bishop(_) => {
                assert(bishop_moves(board, piece, origin) =~= none);
            },
            _ => {
                assert(queen_moves(board, piece, origin) =~= none);
            },
        }
    }
}

/// The first position is playable for White: the board is consistent, each
/// side has its king, and Black is not under check.
pub proof fn lemma_first_position_is_playable()
    ensures
        playable(first_position(), Colour::White),
{
    let board = first_position();
    lemma_first_pieces(Colour::White);
    lemma_first_pieces(Colour::Black);
    assert forall|square: Square| square.on_board() implies (#[trigger] board.has_piece(
        square,
        Colour::White,
    ) <==> square.rank <= 1) && (#[trigger] board.has_piece(square, Colour::Black)
        <==> square.rank >= 6) by {}
    assert(board.consistent()) by {
        assert forall|square: Square, colour: Colour| #[trigger]
            board.has_piece(square, colour) implies square.on_board() && board.pieces(
            colour,
        )[square].colour() == colour by {
            if colour == Colour::White {
                assert(board.white.dom().contains(square));
            } else {
                assert(board.black.dom().contains(square));
            }
        }
        assert forall|square: Square|
            !(#[trigger] board.has_piece(square, Colour::White) && board.has_piece(
                square,
                Colour::Black,
            )) by {
            if board.has_piece(square, Colour::White) {
                assert(board.white.dom().contains(square));
            }
        }
    }
    let white_king = Square { rank: 0, file: 4 };
    let black_king = Square { rank: 7, file: 4 };
    lemma_has_king(board, Colour::White);
    lemma_has_king(board, Colour::Black);
    assert(board.has_piece(white_king, Colour::White) && board.white[white_king].is_king());
    assert(board.has_piece(black_king, Colour::Black) && board.black[black_king].is_king());
    let found = board.king_square(Colour::Black).unwrap();
    assert(found == black_king) by {
        assert(found.on_board() && board.has_piece(found, Colour::Black));
        assert(board.black[found].is_king());
        if found.rank == 6 {
            assert(board.black[found] == PieceType::Pawn(
                Pawn { colour: Colour::Black, first_move: true },
            ));
        }
    }
    assert(!board.controlled(black_king, Colour::White)) by {
        assert forall|origin: Square|
            origin.on_board() && #[trigger] board.has_piece(
                origin,
                Colour::White,
            ) implies !controls(board, board.white[origin], origin, black_king) by {
            lemma_first_moves_stay_low(origin);
        }
    }
}

} // verus!
