use vstd::prelude::*;
use crate::game::play::HalfMove;
use crate::model::board::board::BoardView;
use crate::model::board::square::Square;
use crate::model::piece::bishop::bishop_moves;
use crate::model::piece::king::king_moves;
use crate::model::piece::knight::knight_moves;
use crate::model::piece::pawn::{advance_moves, increment, maybe, pawn_advances, pawn_captures, reach};
use crate::model::piece::piece::{
    capture_move, moves_of, offset, ray_moves, ray_room, step_moves, PieceType,
};
use crate::model::piece::queen::queen_moves;
use crate::model::piece::rook::rook_moves;

verus! {

/// What holds of every candidate move of a piece on `origin`: it names the
/// piece and the origin, it goes to a square of the board, it is a capture
/// exactly if an enemy piece stands there, and else the square is free. Only
/// a pawn's move is a promotion. Check, mate and score are not set.
pub open spec fn candidate(board: BoardView, piece: PieceType, origin: Square, play: HalfMove) -> bool {
    &&& play == HalfMove::plain(piece, origin, play.to, play.capture, play.promotion)
    &&& play.to.on_board()
    &&& play.capture == board.has_piece(play.to, piece.colour().opposite())
    &&& (play.capture || board.is_free(play.to))
    &&& (play.promotion ==> piece.is_pawn())
}

/// All moves of the sequence are candidate moves of the piece.
pub open spec fn all_candidates(
    board: BoardView,
    piece: PieceType,
    origin: Square,
    moves: Seq<HalfMove>,
) -> bool {
    forall|i: int| 0 <= i < moves.len() ==> candidate(board, piece, origin, #[trigger] moves[i])
}

/// A step in one of the eight directions of the compass.
pub open spec fn unit(dr: int, df: int) -> bool {
    -1 <= dr <= 1 && -1 <= df <= 1 && !(dr == 0 && df == 0)
}

pub open spec fn sign(x: int) -> int {
    if x > 0 {
        1
    } else if x < 0 {
        -1
    } else {
        0
    }
}

pub open spec fn magnitude(x: int) -> int {
    if x < 0 {
        -x
    } else {
        x
    }
}

/// The number of steps on the straight way from one square to another.
pub open spec fn span(origin: Square, target: Square) -> int {
    let ranks = magnitude(target.rank - origin.rank);
    let files = magnitude(target.file - origin.file);
    if ranks > files {
        ranks
    } else {
        files
    }
}

/// The square reached after `j` steps on the straight way from `origin`
/// towards `target`.
pub open spec fn waypoint(origin: Square, target: Square, j: int) -> Square {
    Square {
        rank: (origin.rank + j * sign(target.rank - origin.rank)) as u8,
        file: (origin.file + j * sign(target.file - origin.file)) as u8,
    }
}

/// Every square strictly between `origin` and `target` is free.
pub open spec fn clear_way(board: BoardView, origin: Square, target: Square) -> bool {
    forall|j: int| 1 <= j < span(origin, target) ==> board.is_free(#[trigger] waypoint(origin, target, j))
}

/// All moves of the sequence go over free squares only.
pub open spec fn all_clear(board: BoardView, origin: Square, moves: Seq<HalfMove>) -> bool {
    forall|i: int| 0 <= i < moves.len() ==> clear_way(board, origin, (#[trigger] moves[i]).to)
}

proof fn lemma_concat_candidates(
    board: BoardView,
    piece: PieceType,
    origin: Square,
    a: Seq<HalfMove>,
    b: Seq<HalfMove>,
)
    requires
        all_candidates(board, piece, origin, a),
        all_candidates(board, piece, origin, b),
    ensures
        all_candidates(board, piece, origin, a + b),
{
    assert forall|i: int| 0 <= i < (a + b).len() implies candidate(
        board,
        piece,
        origin,
        #[trigger] (a + b)[i],
    ) by {
        if i < a.len() {
            assert((a + b)[i] == a[i]);
        } else {
            assert((a + b)[i] == b[i - a.len()]);
        }
    }
}

proof fn lemma_concat_clear(board: BoardView, origin: Square, a: Seq<HalfMove>, b: Seq<HalfMove>)
    requires
        all_clear(board, origin, a),
        all_clear(board, origin, b),
    ensures
        all_clear(board, origin, a + b),
{
    assert forall|i: int| 0 <= i < (a + b).len() implies clear_way(
        board,
        origin,
        (#[trigger] (a + b)[i]).to,
    ) by {
        if i < a.len() {
            assert((a + b)[i] == a[i]);
        } else {
            assert((a + b)[i] == b[i - a.len()]);
        }
    }
}

proof fn lemma_step(board: BoardView, piece: PieceType, origin: Square, dr: int, df: int)
    ensures
        all_candidates(board, piece, origin, step_moves(board, piece, origin, dr, df)),
        step_moves(board, piece, origin, dr, df).len() <= 1,
{
}

/// The walk of a slide: the `i`-th move from `current` goes `k + i + 1`
/// steps from the origin, where `current` lies `k` steps from it, and every
/// target but the last is free.
proof fn lemma_ray(
    board: BoardView,
    piece: PieceType,
    origin: Square,
    current: Square,
    dr: int,
    df: int,
    k: int,
)
    requires
        unit(dr, df),
        k >= 0,
        current.rank == origin.rank + k * dr,
        current.file == origin.file + k * df,
    ensures
        all_candidates(board, piece, origin, ray_moves(board, piece, origin, current, dr, df)),
        forall|i: int|
            0 <= i < ray_moves(board, piece, origin, current, dr, df).len() ==> {
                let play = #[trigger] ray_moves(board, piece, origin, current, dr, df)[i];
                &&& play.to.rank == origin.rank + (k + i + 1) * dr
                &&& play.to.file == origin.file + (k + i + 1) * df
                &&& (i + 1 < ray_moves(board, piece, origin, current, dr, df).len()
                    ==> board.is_free(play.to))
            },
    decreases ray_room(current, dr, df),
{
    let ray = ray_moves(board, piece, origin, current, dr, df);
    assert((k + 1) * dr == k * dr + dr && (k + 1) * df == k * df + df) by (nonlinear_arith);
    match offset(current, dr, df) {
        Some(target) => {
            if board.has_piece(target, piece.colour().opposite()) {
            } else if board.is_free(target) {
                lemma_ray(board, piece, origin, target, dr, df, k + 1);
                let rest = ray_moves(board, piece, origin, target, dr, df);
                let first = HalfMove::plain(piece, origin, target, false, false);
                assert(ray == seq![first] + rest);
                assert forall|i: int| 0 <= i < ray.len() implies candidate(
                    board,
                    piece,
                    origin,
                    #[trigger] ray[i],
                ) by {
                    if i > 0 {
                        assert(ray[i] == rest[i - 1]);
                    }
                }
                assert forall|i: int| 0 <= i < ray.len() implies {
                    let play = #[trigger] ray[i];
                    &&& play.to.rank == origin.rank + (k + i + 1) * dr
                    &&& play.to.file == origin.file + (k + i + 1) * df
                    &&& (i + 1 < ray.len() ==> board.is_free(play.to))
                } by {
                    if i > 0 {
                        assert(ray[i] == rest[i - 1]);
                        assert(k + 1 + (i - 1) + 1 == k + i + 1);
                    }
                }
            }
        },
        None => {},
    }
}

/// A slide from the origin goes over free squares only.
proof fn lemma_ray_clear(board: BoardView, piece: PieceType, origin: Square, dr: int, df: int)
    requires
        unit(dr, df),
    ensures
        all_candidates(board, piece, origin, ray_moves(board, piece, origin, origin, dr, df)),
        all_clear(board, origin, ray_moves(board, piece, origin, origin, dr, df)),
{
    let ray = ray_moves(board, piece, origin, origin, dr, df);
    lemma_ray(board, piece, origin, origin, dr, df, 0);
    assert forall|i: int| 0 <= i < ray.len() implies clear_way(
        board,
        origin,
        (#[trigger] ray[i]).to,
    ) by {
        let target = ray[i].to;
        assert(target.rank - origin.rank == (i + 1) * dr && target.file - origin.file == (i + 1)
            * df);
        assert(sign((i + 1) * dr) == dr && magnitude((i + 1) * dr) == (i + 1) * magnitude(dr))
            by (nonlinear_arith)
            requires
                -1 <= dr <= 1,
                i >= 0,
        ;
        assert(sign((i + 1) * df) == df && magnitude((i + 1) * df) == (i + 1) * magnitude(df))
            by (nonlinear_arith)
            requires
                -1 <= df <= 1,
                i >= 0,
        ;
        let ranks = magnitude(dr);
        let files = magnitude(df);
        assert((i + 1) * ranks == (if ranks == 1 {
            i + 1
        } else {
            0
        }) && (i + 1) * files == (if files == 1 {
            i + 1
        } else {
            0
        })) by (nonlinear_arith)
            requires
                ranks == 0 || ranks == 1,
                files == 0 || files == 1,
        ;
        assert(span(origin, target) == i + 1);
        assert forall|j: int| 1 <= j < span(origin, target) implies board.is_free(
            #[trigger] waypoint(origin, target, j),
        ) by {
            let earlier = ray[j - 1];
            assert(earlier.to.rank == origin.rank + (0 + (j - 1) + 1) * dr);
            assert(earlier.to.file == origin.file + (0 + (j - 1) + 1) * df);
            assert(earlier.to.on_board());
            assert(waypoint(origin, target, j) == earlier.to);
        }
    }
}

proof fn lemma_advance(
    board: BoardView,
    piece: PieceType,
    origin: Square,
    current: Square,
    dr: int,
    df: int,
    it: nat,
    max_it: nat,
)
    requires
        piece.is_pawn(),
    ensures
        all_candidates(
            board,
            piece,
            origin,
            advance_moves(board, piece, origin, current, dr, df, it, max_it),
        ),
    decreases max_it + 1 - it,
{
    let moves = advance_moves(board, piece, origin, current, dr, df, it, max_it);
    if it <= max_it {
        match offset(current, dr, df) {
            Some(target) => {
                if board.is_free(target) {
                    lemma_advance(board, piece, origin, target, dr, df, it + 1, max_it);
                    let rest = advance_moves(board, piece, origin, target, dr, df, it + 1, max_it);
                    assert forall|i: int| 0 <= i < moves.len() implies candidate(
                        board,
                        piece,
                        origin,
                        #[trigger] moves[i],
                    ) by {
                        if i > 0 {
                            assert(moves[i] == rest[i - 1]);
                        }
                    }
                }
            },
            None => {},
        }
    }
}

proof fn lemma_capture(board: BoardView, piece: PieceType, origin: Square, rank: int, file: int)
    ensures
        all_candidates(board, piece, origin, maybe(capture_move(board, piece, origin, rank, file))),
{
}

/// Every candidate move of a piece is what [`candidate`] says.
pub proof fn lemma_moves_are_candidates(board: BoardView, piece: PieceType, origin: Square)
    ensures
        all_candidates(board, piece, origin, moves_of(board, piece, origin)),
{
    let none = Seq::<HalfMove>::empty();
    match piece {
        PieceType::Pawn(pawn) => {
            lemma_advance(board, piece, origin, origin, increment(pawn.colour), 0, 1, reach(pawn));
            let left = maybe(
                capture_move(
                    board,
                    piece,
                    origin,
                    origin.rank + increment(pawn.colour),
                    origin.file - 1,
                ),
            );
            let right = maybe(
                capture_move(
                    board,
                    piece,
                    origin,
                    origin.rank + increment(pawn.colour),
                    origin.file + 1,
                ),
            );
            lemma_capture(
                board,
                piece,
                origin,
                origin.rank + increment(pawn.colour),
                origin.file - 1,
            );
            lemma_capture(
                board,
                piece,
                origin,
                origin.rank + increment(pawn.colour),
                origin.file + 1,
            );
            lemma_concat_candidates(board, piece, origin, left, right);
            lemma_concat_candidates(
                board,
                piece,
                origin,
                pawn_advances(board, pawn, origin),
                pawn_captures(board, pawn, origin),
            );
        },
        PieceType::Knight(_) => {
            let s1 = step_moves(board, piece, origin, 1, 2);
            let s2 = step_moves(board, piece, origin, 2, 1);
            let s3 = step_moves(board, piece, origin, 2, -1);
            let s4 = step_moves(board, piece, origin, 1, -2);
            let s5 = step_moves(board, piece, origin, -1, -2);
            let s6 = step_moves(board, piece, origin, -2, -1);
            let s7 = step_moves(board, piece, origin, -2, 1);
            let s8 = step_moves(board, piece, origin, -1, 2);
            lemma_step(board, piece, origin, 1, 2);
            lemma_step(board, piece, origin, 2, 1);
            lemma_step(board, piece, origin, 2, -1);
            lemma_step(board, piece, origin, 1, -2);
            lemma_step(board, piece, origin, -1, -2);
            lemma_step(board, piece, origin, -2, -1);
            lemma_step(board, piece, origin, -2, 1);
            lemma_step(board, piece, origin, -1, 2);
            lemma_concat_candidates(board, piece, origin, none, s1);
            lemma_concat_candidates(board, piece, origin, none + s1, s2);
            lemma_concat_candidates(board, piece, origin, none + s1 + s2, s3);
            lemma_concat_candidates(board, piece, origin, none + s1 + s2 + s3, s4);
            lemma_concat_candidates(board, piece, origin, none + s1 + s2 + s3 + s4, s5);
            lemma_concat_candidates(board, piece, origin, none + s1 + s2 + s3 + s4 + s5, s6);
            lemma_concat_candidates(board, piece, origin, none + s1 + s2 + s3 + s4 + s5 + s6, s7);
            lemma_concat_candidates(
                board,
                piece,
                origin,
                none + s1 + s2 + s3 + s4 + s5 + s6 + s7,
                s8,
            );
            assert(none + s1 =~= s1);
            assert(knight_moves(board, piece, origin) == none + s1 + s2 + s3 + s4 + s5 + s6 + s7
                + s8);
        },
        PieceType::King(_) => {
            let s1 = step_moves(board, piece, origin, 1, 0);
            let s2 = step_moves(board, piece, origin, 1, -1);
            let s3 = step_moves(board, piece, origin, 0, -1);
            let s4 = step_moves(board, piece, origin, -1, -1);
            let s5 = step_moves(board, piece, origin, -1, 0);
            let s6 = step_moves(board, piece, origin, -1, 1);
            let s7 = step_moves(board, piece, origin, 0, 1);
            let s8 = step_moves(board, piece, origin, 1, 1);
            lemma_step(board, piece, origin, 1, 0);
            lemma_step(board, piece, origin, 1, -1);
            lemma_step(board, piece, origin, 0, -1);
            lemma_step(board, piece, origin, -1, -1);
            lemma_step(board, piece, origin, -1, 0);
            lemma_step(board, piece, origin, -1, 1);
            lemma_step(board, piece, origin, 0, 1);
            lemma_step(board, piece, origin, 1, 1);
            lemma_concat_candidates(board, piece, origin, none, s1);
            lemma_concat_candidates(board, piece, origin, none + s1, s2);
            lemma_concat_candidates(board, piece, origin, none + s1 + s2, s3);
            lemma_concat_candidates(board, piece, origin, none + s1 + s2 + s3, s4);
            lemma_concat_candidates(board, piece, origin, none + s1 + s2 + s3 + s4, s5);
            lemma_concat_candidates(board, piece, origin, none + s1 + s2 + s3 + s4 + s5, s6);
            lemma_concat_candidates(board, piece, origin, none + s1 + s2 + s3 + s4 + s5 + s6, s7);
            lemma_concat_candidates(
                board,
                piece,
                origin,
                none + s1 + s2 + s3 + s4 + s5 + s6 + s7,
                s8,
            );
            assert(none + s1 =~= s1);
            assert(king_moves(board, piece, origin) == none + s1 + s2 + s3 + s4 + s5 + s6 + s7
                + s8);
        },
        _ => {
            lemma_sliding_moves(board, piece, origin);
        },
    }
}

/// The candidate moves of a bishop, a rook or a queen are candidate moves as
/// [`candidate`] says, and each goes over free squares only.
proof fn lemma_sliding_moves(board: BoardView, piece: PieceType, origin: Square)
    requires
        piece is Bishop || piece is Rook || piece is Queen,
    ensures
        all_candidates(board, piece, origin, moves_of(board, piece, origin)),
        all_clear(board, origin, moves_of(board, piece, origin)),
{
    let none = Seq::<HalfMove>::empty();
    let n = ray_moves(board, piece, origin, origin, 1, 0);
    let nw = ray_moves(board, piece, origin, origin, 1, -1);
    let w = ray_moves(board, piece, origin, origin, 0, -1);
    let sw = ray_moves(board, piece, origin, origin, -1, -1);
    let s = ray_moves(board, piece, origin, origin, -1, 0);
    let se = ray_moves(board, piece, origin, origin, -1, 1);
    let e = ray_moves(board, piece, origin, origin, 0, 1);
    let ne = ray_moves(board, piece, origin, origin, 1, 1);
    lemma_ray_clear(board, piece, origin, 1, 0);
    lemma_ray_clear(board, piece, origin, 1, -1);
    lemma_ray_clear(board, piece, origin, 0, -1);
    lemma_ray_clear(board, piece, origin, -1, -1);
    lemma_ray_clear(board, piece, origin, -1, 0);
    lemma_ray_clear(board, piece, origin, -1, 1);
    lemma_ray_clear(board, piece, origin, 0, 1);
    lemma_ray_clear(board, piece, origin, 1, 1);
    match piece {
        PieceType::Rook(_) => {
            lemma_concat_candidates(board, piece, origin, none, n);
            lemma_concat_candidates(board, piece, origin, none + n, w);
            lemma_concat_candidates(board, piece, origin, none + n + w, s);
            lemma_concat_candidates(board, piece, origin, none + n + w + s, e);
            lemma_concat_clear(board, origin, none, n);
            lemma_concat_clear(board, origin, none + n, w);
            lemma_concat_clear(board, origin, none + n + w, s);
            lemma_concat_clear(board, origin, none + n + w + s, e);
            assert(none + n =~= n);
            assert(rook_moves(board, piece, origin) == none + n + w + s + e);
        },
        PieceType::Bishop(_) => {
            lemma_concat_candidates(board, piece, origin, none, ne);
            lemma_concat_candidates(board, piece, origin, none + ne, nw);
            lemma_concat_candidates(board, piece, origin, none + ne + nw, sw);
            lemma_concat_candidates(board, piece, origin, none + ne + nw + sw, se);
            lemma_concat_clear(board, origin, none, ne);
            lemma_concat_clear(board, origin, none + ne, nw);
            lemma_concat_clear(board, origin, none + ne + nw, sw);
            lemma_concat_clear(board, origin, none + ne + nw + sw, se);
            assert(none + ne =~= ne);
            assert(bishop_moves(board, piece, origin) == none + ne + nw + sw + se);
        },
        _ => {
            lemma_concat_candidates(board, piece, origin, none, n);
            lemma_concat_candidates(board, piece, origin, none + n, nw);
            lemma_concat_candidates(board, piece, origin, none + n + nw, w);
            lemma_concat_candidates(board, piece, origin, none + n + nw + w, sw);
            lemma_concat_candidates(board, piece, origin, none + n + nw + w + sw, s);
            lemma_concat_candidates(board, piece, origin, none + n + nw + w + sw + s, se);
            lemma_concat_candidates(board, piece, origin, none + n + nw + w + sw + s + se, e);
            lemma_concat_candidates(board, piece, origin, none + n + nw + w + sw + s + se + e, ne);
            lemma_concat_clear(board, origin, none, n);
            lemma_concat_clear(board, origin, none + n, nw);
            lemma_concat_clear(board, origin, none + n + nw, w);
            lemma_concat_clear(board, origin, none + n + nw + w, sw);
            lemma_concat_clear(board, origin, none + n + nw + w + sw, s);
            lemma_concat_clear(board, origin, none + n + nw + w + sw + s, se);
            lemma_concat_clear(board, origin, none + n + nw + w + sw + s + se, e);
            lemma_concat_clear(board, origin, none + n + nw + w + sw + s + se + e, ne);
            assert(none + n =~= n);
            assert(queen_moves(board, piece, origin) == none + n + nw + w + sw + s + se + e + ne);
        },
    }
}

/// A sliding piece never jumps: between the origin and the target of any
/// candidate move of a bishop, a rook or a queen, every square is free.
/// So no move goes beyond the first occupied square in its direction.
pub proof fn lemma_sliding_pieces_never_jump(
    board: BoardView,
    piece: PieceType,
    origin: Square,
    i: int,
)
    requires
        piece is Bishop || piece is Rook || piece is Queen,
        0 <= i < moves_of(board, piece, origin).len(),
    ensures
        clear_way(board, origin, moves_of(board, piece, origin)[i].to),
{
    lemma_sliding_moves(board, piece, origin);
}

} // verus!
