use vstd::prelude::*;
use crate::game::play::HalfMove;
use crate::game::score::{Ratio, Score};
use crate::model::board::board::{lemma_listing, BoardView};
use crate::model::board::laws::{lemma_after_candidate, lemma_after_ignores_tags, playable};
use crate::model::board::square::Square;
use crate::model::piece::color::Colour;
use crate::model::piece::piece::{moves_of, PieceType};
use crate::utils::{
    position_hash, ACTIVITY_FACTOR, MATERIAL_FACTOR, MAX_CONSECUTIVE_MOVES, PROXIMITY_FACTOR,
};

verus! {

/// The candidate moves of the pieces of a list, piece after piece.
pub open spec fn candidate_moves(board: BoardView, pieces: Seq<(Square, PieceType)>) -> Seq<
    HalfMove,
>
    decreases pieces.len(),
{
    if pieces.len() == 0 {
        Seq::empty()
    } else {
        candidate_moves(board, pieces.drop_last()) + moves_of(
            board,
            pieces.last().1,
            pieces.last().0,
        )
    }
}

/// The moves of a sequence that do not leave the king of the given side
/// under check, in the order of the sequence.
pub open spec fn allowed_moves(board: BoardView, moves: Seq<HalfMove>, colour: Colour) -> Seq<
    HalfMove,
>
    decreases moves.len(),
{
    if moves.len() == 0 {
        Seq::empty()
    } else {
        let before = allowed_moves(board, moves.drop_last(), colour);
        if board.after(moves.last()).under_check(colour) {
            before
        } else {
            before.push(moves.last())
        }
    }
}

/// The move with the note whether it gives check to the other side.
pub open spec fn tagged(board: BoardView, play: HalfMove) -> HalfMove {
    play.with_check(board.after(play).under_check(play.piece.colour().opposite()))
}

/// The moves of a sequence, each with the note whether it gives check.
pub open spec fn tagged_moves(board: BoardView, moves: Seq<HalfMove>) -> Seq<HalfMove> {
    Seq::new(moves.len(), |i: int| tagged(board, moves[i]))
}

/// The legal moves of a side: the candidate moves of its pieces, taken in
/// rank-major order of their squares, without those that leave its own king
/// under check; each with the note whether it gives check.
pub open spec fn legal_moves(board: BoardView, colour: Colour) -> Seq<HalfMove> {
    tagged_moves(
        board,
        allowed_moves(board, candidate_moves(board, board.listing(colour, 64)), colour),
    )
}

/// Two moves that move the same piece between the same squares with the same
/// effect on the board.
pub open spec fn same_move(a: HalfMove, b: HalfMove) -> bool {
    &&& a.piece == b.piece
    &&& a.from == b.from
    &&& a.to == b.to
    &&& a.capture == b.capture
    &&& a.promotion == b.promotion
}

/// The move is a candidate move of a piece of the given side.
pub open spec fn generated(board: BoardView, colour: Colour, play: HalfMove) -> bool {
    exists|origin: Square, j: int|
        origin.on_board() && board.has_piece(origin, colour) && 0 <= j < moves_of(
            board,
            board.pieces(colour)[origin],
            origin,
        ).len() && same_move(
            play,
            #[trigger] moves_of(board, board.pieces(colour)[origin], origin)[j],
        )
}

/// How often a hash occurs in a history of positions.
pub open spec fn occurrences(positions: Seq<u64>, hash: u64) -> nat
    decreases positions.len(),
{
    if positions.len() == 0 {
        0
    } else {
        occurrences(positions.drop_last(), hash) + if positions.last() == hash {
            1nat
        } else {
            0nat
        }
    }
}

/// The count of moves without progress after a move: none after a capture
/// or a pawn's move, else one more than before.
pub open spec fn next_count(play: HalfMove, consecutive_moves: u8) -> int {
    if play.capture || play.piece.is_pawn() {
        0
    } else {
        consecutive_moves + 1
    }
}

/// What a draw is worth: as much as a win to a side that has nothing left
/// but its king, and else the fixed worth of a draw.
pub open spec fn draw_value(king_alone: bool) -> Score {
    if king_alone {
        Score::Win
    } else {
        Score::Draw
    }
}

/// The sum of three fractions, each times its weight, as one fraction over
/// the product of the three denominators.
pub open spec fn weighted_sum(material: Ratio, activity: Ratio, proximity: Ratio) -> (int, int) {
    (
        MATERIAL_FACTOR * material.num * activity.den * proximity.den + ACTIVITY_FACTOR
            * activity.num * material.den * proximity.den + PROXIMITY_FACTOR * proximity.num
            * material.den * activity.den,
        material.den * activity.den * proximity.den,
    )
}

/// The worth of a position to a side: the weighted sum of its share of the
/// material, its share of the activity and the progress of its pawns.
/// Where the other side controls no square the worth is no number: see
/// [`Ratio`].
pub open spec fn evaluation(board: BoardView, colour: Colour) -> Score {
    let sum = weighted_sum(
        Ratio {
            num: board.material(colour) as u64,
            den: board.material(colour.opposite()) as u64,
        },
        Ratio {
            num: board.activity(colour) as u64,
            den: board.activity(colour.opposite()) as u64,
        },
        Ratio { num: board.proximity(colour) as u64, den: 420 },
    );
    Score::Value(Ratio { num: sum.0 as u64, den: sum.1 as u64 })
}

/// The worth to the side `original` of a move that the side `colour` makes
/// on `board`, with `consecutive_moves` moves without progress before it and
/// the given history of positions, at the given depth of the search.
///
/// The move is worth a draw if the count of moves without progress has
/// reached its limit, or if the position that the move leads to has now
/// occurred three times. Else, at the greatest depth, it is worth what the
/// position is worth. Else, if the other side has no legal reply, it is worth
/// a draw unless it gives check; a checking move is worth a win if `original`
/// made it, and a loss if not. Else it is worth what the best reply is worth.
pub open spec fn worth(
    board: BoardView,
    original: Colour,
    colour: Colour,
    play: HalfMove,
    consecutive_moves: u8,
    positions: Seq<u64>,
    depth: nat,
    max_depth: nat,
) -> Score
    decreases max_depth - depth, 0nat, 0nat,
{
    let next = board.after(play);
    let replier = colour.opposite();
    let hash = position_hash(next, replier);
    let history = positions.push(hash);
    let king_alone = board.count(original) == 1;
    if consecutive_moves >= MAX_CONSECUTIVE_MOVES {
        draw_value(king_alone)
    } else if occurrences(history, hash) >= 3 {
        draw_value(king_alone)
    } else if depth >= max_depth {
        evaluation(next, original)
    } else {
        let replies = legal_moves(next, replier);
        if replies.len() == 0 {
            if !play.check {
                draw_value(king_alone)
            } else if play.piece.colour() == original {
                Score::Win
            } else {
                Score::Loss
            }
        } else {
            best_move(
                next,
                original,
                replier,
                replies,
                next_count(play, consecutive_moves) as u8,
                history,
                depth + 1,
                max_depth,
            ).1
        }
    }
}

/// The move that the search picks among `moves`, with its worth to the side
/// `original`. A single move is picked as it is, unscored. Else the moves
/// are scored in turn: see [`scan`].
pub open spec fn best_move(
    board: BoardView,
    original: Colour,
    colour: Colour,
    moves: Seq<HalfMove>,
    consecutive_moves: u8,
    positions: Seq<u64>,
    depth: nat,
    max_depth: nat,
) -> (Option<HalfMove>, Score)
    decreases max_depth - depth, 2nat, 0nat,
{
    if moves.len() == 1 {
        (Some(moves[0]), Score::Loss)
    } else {
        scan(
            board,
            original,
            colour,
            moves,
            consecutive_moves,
            positions,
            depth,
            max_depth,
            0,
            (None, Score::Loss),
        )
    }
}

/// The pick among the moves from place `from` on, where `best` is the pick
/// among the moves before. A move takes the place of the pick if it is worth
/// more, or if there is no pick yet; it then carries its worth as its score.
/// Whichever side is to move, worth is worth to the side `original`. The
/// scan ends at the first pick that is worth a win.
pub open spec fn scan(
    board: BoardView,
    original: Colour,
    colour: Colour,
    moves: Seq<HalfMove>,
    consecutive_moves: u8,
    positions: Seq<u64>,
    depth: nat,
    max_depth: nat,
    from: nat,
    best: (Option<HalfMove>, Score),
) -> (Option<HalfMove>, Score)
    decreases max_depth - depth, 1nat, moves.len() - from,
{
    if from >= moves.len() {
        best
    } else {
        let play = moves[from as int];
        let value = worth(
            board,
            original,
            colour,
            play,
            consecutive_moves,
            positions,
            depth,
            max_depth,
        );
        let pick = if value.gt(best.1) || best.0 is None {
            (Some(play.with_evaluation(value)), value)
        } else {
            best
        };
        if pick.1 == Score::Win {
            pick
        } else {
            scan(
                board,
                original,
                colour,
                moves,
                consecutive_moves,
                positions,
                depth,
                max_depth,
                from + 1,
                pick,
            )
        }
    }
}

/// The move that a side plays: none if it has no legal move, else the pick
/// of the search among its legal moves.
pub open spec fn selection(
    board: BoardView,
    colour: Colour,
    consecutive_moves: u8,
    positions: Seq<u64>,
    max_depth: nat,
) -> Option<HalfMove> {
    let moves = legal_moves(board, colour);
    if moves.len() == 0 {
        None
    } else {
        best_move(board, colour, colour, moves, consecutive_moves, positions, 0, max_depth).0
    }
}

/// What holds of a move that a side may make from a playable position: it
/// is a candidate move of one of the side's pieces, it can be made on the
/// board, it does not leave the side's own king under check, and the position
/// after it is playable for the other side.
pub open spec fn sound_move(board: BoardView, colour: Colour, play: HalfMove) -> bool {
    &&& generated(board, colour, play)
    &&& play.piece.colour() == colour
    &&& board.has_piece(play.from, colour)
    &&& play.to.on_board()
    &&& board.after(play).consistent()
    &&& board.after(play).has_king(Colour::White)
    &&& board.after(play).has_king(Colour::Black)
}

/// A candidate move of a side in a playable position can be made, and
/// leaves a consistent board with both kings on it.
pub proof fn lemma_generated(board: BoardView, colour: Colour, play: HalfMove)
    requires
        playable(board, colour),
        generated(board, colour, play),
    ensures
        sound_move(board, colour, play),
{
    let (origin, j) = choose|origin: Square, j: int|
        origin.on_board() && board.has_piece(origin, colour) && 0 <= j < moves_of(
            board,
            board.pieces(colour)[origin],
            origin,
        ).len() && same_move(
            play,
            #[trigger] moves_of(board, board.pieces(colour)[origin], origin)[j],
        );
    let twin = moves_of(board, board.pieces(colour)[origin], origin)[j];
    lemma_after_candidate(board, colour, origin, j);
    lemma_after_ignores_tags(board, twin, play);
    assert(colour == Colour::White || colour == Colour::Black);
    assert(colour.opposite() == Colour::White || colour.opposite() == Colour::Black);
}

/// The candidate moves of the pieces of a side are generated moves.
pub proof fn lemma_candidates_generated(
    board: BoardView,
    colour: Colour,
    pieces: Seq<(Square, PieceType)>,
)
    requires
        forall|k: int|
            0 <= k < pieces.len() ==> {
                let entry = #[trigger] pieces[k];
                &&& entry.0.on_board()
                &&& board.has_piece(entry.0, colour)
                &&& entry.1 == board.pieces(colour)[entry.0]
            },
    ensures
        forall|i: int|
            0 <= i < candidate_moves(board, pieces).len() ==> generated(
                board,
                colour,
                #[trigger] candidate_moves(board, pieces)[i],
            ),
    decreases pieces.len(),
{
    if pieces.len() > 0 {
        let before = candidate_moves(board, pieces.drop_last());
        let last = moves_of(board, pieces.last().1, pieces.last().0);
        let all = candidate_moves(board, pieces);
        assert forall|k: int| 0 <= k < pieces.drop_last().len() implies {
            let entry = #[trigger] pieces.drop_last()[k];
            &&& entry.0.on_board()
            &&& board.has_piece(entry.0, colour)
            &&& entry.1 == board.pieces(colour)[entry.0]
        } by {
            assert(pieces.drop_last()[k] == pieces[k]);
        }
        lemma_candidates_generated(board, colour, pieces.drop_last());
        assert forall|i: int| 0 <= i < all.len() implies generated(
            board,
            colour,
            #[trigger] all[i],
        ) by {
            if i < before.len() {
                assert(all[i] == before[i]);
            } else {
                let entry = pieces[pieces.len() - 1];
                assert(all[i] == last[i - before.len()]);
                assert(same_move(
                    all[i],
                    moves_of(board, board.pieces(colour)[entry.0], entry.0)[i - before.len()],
                ));
            }
        }
    }
}

/// What the filter keeps: each move that it keeps is one of the moves it
/// was given and leaves the side's king out of check, and it keeps every
/// such move.
pub proof fn lemma_allowed_moves(board: BoardView, moves: Seq<HalfMove>, colour: Colour)
    ensures
        allowed_moves(board, moves, colour).len() <= moves.len(),
        forall|i: int|
            0 <= i < allowed_moves(board, moves, colour).len() ==> {
                let play = #[trigger] allowed_moves(board, moves, colour)[i];
                &&& moves.contains(play)
                &&& !board.after(play).under_check(colour)
            },
        forall|j: int|
            0 <= j < moves.len() && !board.after(#[trigger] moves[j]).under_check(colour)
                ==> allowed_moves(board, moves, colour).contains(moves[j]),
    decreases moves.len(),
{
    if moves.len() > 0 {
        let before = allowed_moves(board, moves.drop_last(), colour);
        let all = allowed_moves(board, moves, colour);
        lemma_allowed_moves(board, moves.drop_last(), colour);
        assert forall|i: int| 0 <= i < all.len() implies {
            let play = #[trigger] all[i];
            &&& moves.contains(play)
            &&& !board.after(play).under_check(colour)
        } by {
            if i < before.len() {
                assert(all[i] == before[i]);
                let j = choose|j: int|
                    0 <= j < moves.drop_last().len() && moves.drop_last()[j] == before[i];
                assert(moves[j] == all[i]);
            } else {
                assert(all[i] == moves[moves.len() - 1]);
            }
        }
        assert forall|j: int|
            0 <= j < moves.len() && !board.after(#[trigger] moves[j]).under_check(
                colour,
            ) implies all.contains(moves[j]) by {
            if j < moves.len() - 1 {
                assert(moves.drop_last()[j] == moves[j]);
                let i = choose|i: int| 0 <= i < before.len() && before[i] == moves[j];
                assert(all[i] == moves[j]);
            } else {
                assert(all[all.len() - 1] == moves[j]);
            }
        }
    }
}

/// To filter twice is to filter once: the moves that the filter keeps, it
/// keeps again, all of them and in the same order.
pub proof fn lemma_filter_is_idempotent(board: BoardView, moves: Seq<HalfMove>, colour: Colour)
    ensures
        allowed_moves(board, allowed_moves(board, moves, colour), colour) == allowed_moves(
            board,
            moves,
            colour,
        ),
    decreases moves.len(),
{
    if moves.len() > 0 {
        let before = allowed_moves(board, moves.drop_last(), colour);
        lemma_filter_is_idempotent(board, moves.drop_last(), colour);
        if !board.after(moves.last()).under_check(colour) {
            assert(before.push(moves.last()).drop_last() == before);
        }
    }
}

/// What holds of a legal move: it is a sound move, it leaves the mover's
/// king out of check, it says truly whether it gives check, and the position
/// after it is playable for the other side.
pub open spec fn legal_move(board: BoardView, colour: Colour, play: HalfMove) -> bool {
    &&& sound_move(board, colour, play)
    &&& !board.after(play).under_check(colour)
    &&& play.check == board.after(play).under_check(colour.opposite())
    &&& playable(board.after(play), colour.opposite())
}

/// Every legal move of a side in a playable position is what [`legal_move`]
/// says.
pub proof fn lemma_legal_moves(board: BoardView, colour: Colour)
    requires
        playable(board, colour),
    ensures
        forall|i: int|
            0 <= i < legal_moves(board, colour).len() ==> legal_move(
                board,
                colour,
                #[trigger] legal_moves(board, colour)[i],
            ),
{
    let pieces = board.listing(colour, 64);
    let candidates = candidate_moves(board, pieces);
    let allowed = allowed_moves(board, candidates, colour);
    let legal = legal_moves(board, colour);
    lemma_listing(board, colour, 64);
    lemma_candidates_generated(board, colour, pieces);
    lemma_allowed_moves(board, candidates, colour);
    assert forall|i: int| 0 <= i < legal.len() implies legal_move(
        board,
        colour,
        #[trigger] legal[i],
    ) by {
        let plain = allowed[i];
        let play = legal[i];
        assert(play == tagged(board, plain));
        assert(candidates.contains(plain));
        let k = choose|k: int| 0 <= k < candidates.len() && candidates[k] == plain;
        assert(generated(board, colour, candidates[k]));
        let (origin, j) = choose|origin: Square, j: int|
            origin.on_board() && board.has_piece(origin, colour) && 0 <= j < moves_of(
                board,
                board.pieces(colour)[origin],
                origin,
            ).len() && same_move(
                plain,
                #[trigger] moves_of(board, board.pieces(colour)[origin], origin)[j],
            );
        assert(same_move(play, moves_of(board, board.pieces(colour)[origin], origin)[j]));
        lemma_generated(board, colour, play);
        lemma_after_ignores_tags(board, plain, play);
    }
}

/// The pick is one of the moves, but for its score.
pub open spec fn picked_from(pick: Option<HalfMove>, moves: Seq<HalfMove>) -> bool {
    match pick {
        None => true,
        Some(play) => exists|i: int|
            0 <= i < moves.len() && play == (#[trigger] moves[i]).with_evaluation(play.evaluation),
    }
}

proof fn lemma_scan(
    board: BoardView,
    original: Colour,
    colour: Colour,
    moves: Seq<HalfMove>,
    consecutive_moves: u8,
    positions: Seq<u64>,
    depth: nat,
    max_depth: nat,
    from: nat,
    best: (Option<HalfMove>, Score),
)
    requires
        picked_from(best.0, moves),
        from > 0 ==> best.0 is Some,
    ensures
        picked_from(
            scan(
                board,
                original,
                colour,
                moves,
                consecutive_moves,
                positions,
                depth,
                max_depth,
                from,
                best,
            ).0,
            moves,
        ),
        moves.len() > 0 || best.0 is Some ==> scan(
            board,
            original,
            colour,
            moves,
            consecutive_moves,
            positions,
            depth,
            max_depth,
            from,
            best,
        ).0 is Some,
    decreases moves.len() - from,
{
    if from < moves.len() {
        let play = moves[from as int];
        let value = worth(
            board,
            original,
            colour,
            play,
            consecutive_moves,
            positions,
            depth,
            max_depth,
        );
        let pick = if value.gt(best.1) || best.0 is None {
            (Some(play.with_evaluation(value)), value)
        } else {
            best
        };
        assert(picked_from(pick.0, moves)) by {
            if value.gt(best.1) || best.0 is None {
                assert(play.with_evaluation(value) == moves[from as int].with_evaluation(value));
            }
        }
        if pick.1 != Score::Win {
            lemma_scan(
                board,
                original,
                colour,
                moves,
                consecutive_moves,
                positions,
                depth,
                max_depth,
                from + 1,
                pick,
            );
        }
    }
}

/// Where there is a move, the search picks one, and its pick is one of the
/// moves, but for its score.
pub proof fn lemma_best_move(
    board: BoardView,
    original: Colour,
    colour: Colour,
    moves: Seq<HalfMove>,
    consecutive_moves: u8,
    positions: Seq<u64>,
    depth: nat,
    max_depth: nat,
)
    requires
        moves.len() > 0,
    ensures
        best_move(
            board,
            original,
            colour,
            moves,
            consecutive_moves,
            positions,
            depth,
            max_depth,
        ).0 is Some,
        picked_from(
            best_move(
                board,
                original,
                colour,
                moves,
                consecutive_moves,
                positions,
                depth,
                max_depth,
            ).0,
            moves,
        ),
{
    if moves.len() == 1 {
        assert(moves[0] == moves[0].with_evaluation(moves[0].evaluation));
    } else {
        lemma_scan(
            board,
            original,
            colour,
            moves,
            consecutive_moves,
            positions,
            depth,
            max_depth,
            0,
            (None, Score::Loss),
        );
    }
}

/// The move that a side plays from a playable position is a legal move: it
/// does not leave the side's own king under check. There is one exactly if
/// the side has a legal move.
pub proof fn lemma_selection(
    board: BoardView,
    colour: Colour,
    consecutive_moves: u8,
    positions: Seq<u64>,
    max_depth: nat,
)
    requires
        playable(board, colour),
    ensures
        selection(board, colour, consecutive_moves, positions, max_depth) is None <==> legal_moves(
            board,
            colour,
        ).len() == 0,
        selection(board, colour, consecutive_moves, positions, max_depth) matches Some(play)
            ==> legal_move(board, colour, play) && picked_from(
            Some(play),
            legal_moves(board, colour),
        ),
{
    let moves = legal_moves(board, colour);
    if moves.len() > 0 {
        lemma_best_move(board, colour, colour, moves, consecutive_moves, positions, 0, max_depth);
        lemma_legal_moves(board, colour);
        let play = selection(board, colour, consecutive_moves, positions, max_depth).unwrap();
        let i = choose|i: int|
            0 <= i < moves.len() && play == (#[trigger] moves[i]).with_evaluation(play.evaluation);
        assert(legal_move(board, colour, moves[i]));
        lemma_after_ignores_tags(board, moves[i], play);
        let (origin, j) = choose|origin: Square, j: int|
            origin.on_board() && board.has_piece(origin, colour) && 0 <= j < moves_of(
                board,
                board.pieces(colour)[origin],
                origin,
            ).len() && same_move(
                moves[i],
                #[trigger] moves_of(board, board.pieces(colour)[origin], origin)[j],
            );
        assert(same_move(play, moves_of(board, board.pieces(colour)[origin], origin)[j]));
    }
}

} // verus!
