use vstd::prelude::*;
use crate::game::play::HalfMove;
use crate::model::board::board::{first_king, lemma_listing, BoardView};
use crate::model::board::square::Square;
use crate::model::piece::color::Colour;
use crate::model::piece::laws::{candidate, lemma_moves_are_candidates};
use crate::model::piece::piece::{controls, moves_of, PieceType};

verus! {

/// A king found in a list stands in it at or after the place where the
/// search began, and the search finds none only where there is none.
proof fn lemma_first_king(list: Seq<(Square, PieceType)>, from: nat)
    ensures
        match first_king(list, from) {
            Some(square) => exists|i: int|
                from <= i < list.len() && (#[trigger] list[i]).1.is_king() && list[i].0 == square,
            None => forall|i: int| from <= i < list.len() ==> !(#[trigger] list[i]).1.is_king(),
        },
    decreases list.len() - from,
{
    if from < list.len() {
        if list[from as int].1.is_king() {
        } else {
            lemma_first_king(list, from + 1);
        }
    }
}

/// A side has a king exactly if a king of its own stands on some square of
/// the board, and the king's square is then such a square.
pub proof fn lemma_has_king(board: BoardView, colour: Colour)
    ensures
        board.has_king(colour) <==> exists|square: Square|
            square.on_board() && #[trigger] board.has_piece(square, colour) && board.pieces(
                colour,
            )[square].is_king(),
        board.has_king(colour) ==> {
            let square = board.king_square(colour).unwrap();
            &&& square.on_board()
            &&& board.has_piece(square, colour)
            &&& board.pieces(colour)[square].is_king()
        },
        board.has_king(colour) ==> board.count(colour) > 0,
{
    let list = board.listing(colour, 64);
    lemma_listing(board, colour, 64);
    lemma_first_king(list, 0);
    if board.has_king(colour) {
        let i = choose|i: int|
            0 <= i < list.len() && (#[trigger] list[i]).1.is_king() && list[i].0
                == board.king_square(colour).unwrap();
        assert(board.has_piece(list[i].0, colour));
    }
    if exists|square: Square|
        square.on_board() && #[trigger] board.has_piece(square, colour) && board.pieces(
            colour,
        )[square].is_king() {
        let square = choose|square: Square|
            square.on_board() && #[trigger] board.has_piece(square, colour) && board.pieces(
                colour,
            )[square].is_king();
        assert(square.index() < 64);
        let i = choose|i: int|
            0 <= i < list.len() && #[trigger] list[i] == (square, board.pieces(colour)[square]);
        assert(list[i].1.is_king());
    }
}

/// The board after a move depends on the piece that the move names, on its
/// origin and target and on whether it is a capture or a promotion, and on
/// nothing else in the move.
pub proof fn lemma_after_ignores_tags(board: BoardView, play: HalfMove, other: HalfMove)
    requires
        other.piece == play.piece,
        other.from == play.from,
        other.to == play.to,
        other.capture == play.capture,
        other.promotion == play.promotion,
    ensures
        board.after(other) == board.after(play),
{
}

/// A position from which a side can move: the board is consistent, each
/// side has a king, and the side that is not to move is not under check.
pub open spec fn playable(board: BoardView, colour: Colour) -> bool {
    &&& board.consistent()
    &&& board.has_king(Colour::White)
    &&& board.has_king(Colour::Black)
    &&& !board.under_check(colour.opposite())
}

/// A candidate move on a consistent board leaves the board consistent and
/// the mover's king on it. Where the other side is not under check, its king
/// stays on the board too.
pub proof fn lemma_after_candidate(board: BoardView, colour: Colour, origin: Square, i: int)
    requires
        board.consistent(),
        origin.on_board(),
        board.has_piece(origin, colour),
        0 <= i < moves_of(board, board.pieces(colour)[origin], origin).len(),
    ensures
        ({
            let play = moves_of(board, board.pieces(colour)[origin], origin)[i];
            &&& candidate(board, board.pieces(colour)[origin], origin, play)
            &&& play.piece.colour() == colour
            &&& board.after(play).consistent()
            &&& (board.has_king(colour) ==> board.after(play).has_king(colour))
            &&& (board.has_king(colour.opposite()) && !board.under_check(colour.opposite())
                ==> board.after(play).has_king(colour.opposite()))
        }),
{
    let piece = board.pieces(colour)[origin];
    let play = moves_of(board, piece, origin)[i];
    let enemy_side = colour.opposite();
    lemma_moves_are_candidates(board, piece, origin);
    assert(candidate(board, piece, origin, play));
    assert(piece.colour() == colour);
    let next = board.after(play);
    let own = board.pieces(colour).remove(origin).insert(play.to, board.arrival(play));
    let enemy = if play.capture {
        board.pieces(enemy_side).remove(play.to)
    } else {
        board.pieces(enemy_side)
    };
    assert(next.pieces(colour) == own);
    assert(next.pieces(enemy_side) == enemy);
    assert(board.arrival(play).colour() == colour);
    assert(!board.has_piece(play.to, colour)) by {
        if play.capture {
            assert(board.has_piece(play.to, enemy_side));
            assert(!(board.has_piece(play.to, Colour::White) && board.has_piece(
                play.to,
                Colour::Black,
            )));
        }
    }

    // The new board is consistent.
    assert forall|square: Square, side: Colour| #[trigger]
        next.has_piece(square, side) implies square.on_board() && next.pieces(
        side,
    )[square].colour() == side by {
        if side == colour {
            if square != play.to {
                assert(board.has_piece(square, colour));
            }
        } else {
            assert(side == enemy_side);
            assert(board.has_piece(square, enemy_side));
        }
    }
    assert forall|square: Square|
        !(#[trigger] next.has_piece(square, Colour::White) && next.has_piece(
            square,
            Colour::Black,
        )) by {
        if next.has_piece(square, colour) && next.has_piece(square, enemy_side) {
            assert(board.has_piece(square, enemy_side));
            if square != play.to {
                assert(board.has_piece(square, colour));
                assert(!(board.has_piece(square, Colour::White) && board.has_piece(
                    square,
                    Colour::Black,
                )));
            }
        }
    }
    assert(next.consistent());

    // The mover's king is still there.
    lemma_has_king(board, colour);
    lemma_has_king(next, colour);
    if board.has_king(colour) {
        let king = board.king_square(colour).unwrap();
        if king == origin {
            assert(next.has_piece(play.to, colour) && next.pieces(colour)[play.to].is_king());
        } else {
            assert(king != play.to);
            assert(next.has_piece(king, colour) && next.pieces(colour)[king].is_king());
        }
    }

    // So is the other king, unless it could be taken.
    lemma_has_king(board, enemy_side);
    lemma_has_king(next, enemy_side);
    if board.has_king(enemy_side) && !board.under_check(enemy_side) {
        let king = board.king_square(enemy_side).unwrap();
        if play.capture && play.to == king {
            assert(controls(board, piece, origin, king));
            assert(board.controlled(king, colour));
            assert(enemy_side.opposite() == colour);
            assert(false);
        }
        assert(next.has_piece(king, enemy_side) && next.pieces(enemy_side)[king].is_king());
    }
}

} // verus!
