use vstd::prelude::*;
use crate::game::play::{FullMove, HalfMove};
use crate::game::rules::{
    allowed_moves, best_move, candidate_moves, draw_value, evaluation, generated, legal_move,
    legal_moves, lemma_allowed_moves, lemma_candidates_generated, lemma_generated,
    lemma_legal_moves, lemma_selection, next_count, occurrences, picked_from, scan, selection,
    tagged, weighted_sum, worth,
};
use crate::game::score::{Ratio, Score};
use crate::game::turn::Turn;
use crate::model::board::board::{lemma_listing, Board};
use crate::model::board::laws::{lemma_has_king, playable};
use crate::model::board::start::{first_position, lemma_first_position_is_playable};
use crate::model::piece::color::Colour;
use crate::model::piece::pawn::Pawn;
use crate::model::piece::piece::{Piece, PieceType};
use crate::utils::{
    hash_position, init_black_pieces, init_squares, init_white_pieces, position_hash,
    ACTIVITY_FACTOR, MATERIAL_FACTOR, MAX_CONSECUTIVE_MOVES, PROXIMITY_FACTOR,
};

verus! {

/// Why a game is over.
#[derive(PartialEq, Eq, Structural, Debug, Copy, Clone)]
pub enum TerminalReason {
    /// The counter of turns can count no further.
    MaxTurns,
    /// Fifty moves of each side without a capture or a pawn's move.
    FiftyMoves,
    /// The same position has occurred three times.
    Repetition,
    /// White is to move and has no legal move.
    WhiteStuck,
    /// Black is to move and has no legal move.
    BlackStuck,
}

impl TerminalReason {
    /// The reason in words.
    pub fn message(&self) -> (text: &'static str)
        ensures
            text@ == (match *self {
                TerminalReason::MaxTurns => "Max number of turns"@,
                TerminalReason::FiftyMoves => "50 consecutive turns without captures or pawn moves"@,
                TerminalReason::Repetition => "Same position repeated for 3 times"@,
                TerminalReason::WhiteStuck => "White doesn't have any legal move to play"@,
                TerminalReason::BlackStuck => "Black doesn't have any legal move to play"@,
            }),
    {
        match self {
            TerminalReason::MaxTurns => "Max number of turns",
            TerminalReason::FiftyMoves => "50 consecutive turns without captures or pawn moves",
            TerminalReason::Repetition => "Same position repeated for 3 times",
            TerminalReason::WhiteStuck => "White doesn't have any legal move to play",
            TerminalReason::BlackStuck => "Black doesn't have any legal move to play",
        }
    }
}

/// Whether a game is drawn by its count of moves without progress or by
/// repetition: by the count if it has reached its limit, else by repetition
/// if the position with the given side to move has occurred three times.
pub open spec fn terminal(
    consecutive_moves: u8,
    positions: Seq<u64>,
    hash: u64,
) -> Option<TerminalReason> {
    if consecutive_moves >= MAX_CONSECUTIVE_MOVES {
        Some(TerminalReason::FiftyMoves)
    } else if occurrences(positions, hash) >= 3 {
        Some(TerminalReason::Repetition)
    } else {
        None
    }
}

/// The move with the note that it mates, if it gives check.
pub open spec fn with_checkmate(play: Option<HalfMove>) -> Option<HalfMove> {
    match play {
        Some(p) => Some(HalfMove { checkmate: p.check, ..p }),
        None => None,
    }
}

/// The move with the note that it stalemates, unless it mates.
pub open spec fn with_stalemate(play: Option<HalfMove>) -> Option<HalfMove> {
    match play {
        Some(p) => Some(HalfMove { stalemate: !p.checkmate, ..p }),
        None => None,
    }
}

/// The last move of a game, with the note how it ended the game: by mate if
/// the move gives check, else by stalemate.
pub open spec fn closing(play: Option<HalfMove>) -> Option<HalfMove> {
    with_stalemate(with_checkmate(play))
}

/// A game in progress: the turns played so far, the board, the number of
/// moves in a row without a capture or a pawn's move, and the hashes of all
/// positions that have occurred, the first position included.
pub struct Game {
    pub turns: Vec<Turn>,
    pub board: Board,
    pub consecutive_moves: u8,
    pub positions: Vec<u64>,
}

impl Game {
    /// A game at its start: the pieces stand on their first squares, no
    /// turn has been played, and the history holds the first position, with
    /// White to move.
    pub fn new() -> (game: Game)
        ensures
            game.turns@.len() == 0,
            game.board@ == first_position(),
            playable(game.board@, Colour::White),
            game.consecutive_moves == 0,
            game.positions@ == seq![position_hash(game.board@, Colour::White)],
    {
        proof {
            lemma_first_position_is_playable();
        }
        let squares = init_squares();
        let white_pieces = init_white_pieces();
        let black_pieces = init_black_pieces();
        let board = Board::new(squares, white_pieces, black_pieces);
        let hash = hash_position(&board, Colour::White);
        let mut positions: Vec<u64> = Vec::new();
        positions.push(hash);

        Game { turns: Vec::new(), board, consecutive_moves: 0, positions }
    }

    pub fn get_board(&self) -> (board: &Board)
        ensures
            *board == self.board,
    {
        &self.board
    }

    pub fn get_turns(&self) -> (turns: &Vec<Turn>)
        ensures
            *turns == self.turns,
    {
        &self.turns
    }

    /// Plays one move of the given side, if it has one: see [`selection`].
    /// The move is made on the board, the count of moves without progress
    /// follows it, and the new position, with the other side to move, joins
    /// the history. With no legal move nothing changes.
    pub fn play_turn(&mut self, colour: Colour, max_depth: u8) -> (played: Option<HalfMove>)
        requires
            playable(old(self).board@, colour),
            old(self).consecutive_moves < u8::MAX,
        ensures
            played == selection(
                old(self).board@,
                colour,
                old(self).consecutive_moves,
                old(self).positions@,
                max_depth as nat,
            ),
            final(self).turns == old(self).turns,
            match played {
                Some(play) => {
                    &&& legal_move(old(self).board@, colour, play)
                    &&& final(self).board@ == old(self).board@.after(play)
                    &&& final(self).consecutive_moves == next_count(
                        play,
                        old(self).consecutive_moves,
                    )
                    &&& final(self).positions@ == old(self).positions@.push(
                        position_hash(final(self).board@, colour.opposite()),
                    )
                    &&& playable(final(self).board@, colour.opposite())
                },
                None => {
                    &&& legal_moves(old(self).board@, colour).len() == 0
                    &&& final(self).board@ == old(self).board@
                    &&& final(self).consecutive_moves == old(self).consecutive_moves
                    &&& final(self).positions == old(self).positions
                },
            },
    {
        let chosen = self.select_move(
            &self.board,
            colour,
            self.consecutive_moves,
            &self.positions,
            max_depth,
        );
        match chosen {
            Some(chosen_one) => {
                self.board.execute_move(&chosen_one);

                // How many moves in a row have made no progress
                self.consecutive_moves = Game::update_consecutive_moves(
                    &chosen_one,
                    self.consecutive_moves,
                );

                // The position joins the history
                let hash = hash_position(&self.board, colour.get_opposite());
                self.positions.push(hash);

                Some(chosen_one)
            },
            // The game ends here
            None => None,
        }
    }

    /// The move with the note that it mates, if it gives check.
    pub fn eventually_set_checkmate(&self, play: Option<HalfMove>) -> (tagged: Option<HalfMove>)
        ensures
            tagged == with_checkmate(play),
    {
        match play {
            Some(mut p) => {
                p.set_checkmate(p.is_check());
                Some(p)
            },
            None => None,
        }
    }

    /// The move with the note that it stalemates, unless it mates.
    pub fn eventually_set_stalemate(&self, play: Option<HalfMove>) -> (tagged: Option<HalfMove>)
        ensures
            tagged == with_stalemate(play),
    {
        match play {
            Some(mut p) => {
                p.set_stalemate(!p.is_checkmate());
                Some(p)
            },
            None => None,
        }
    }

    /// Whether the game is drawn by the count of moves without progress or
    /// by repetition of the position with the given side to move: see
    /// [`terminal`].
    pub fn is_game_terminal(
        consecutive_moves: u8,
        positions: &Vec<u64>,
        board: &Board,
        colour: Colour,
    ) -> (reason: Option<TerminalReason>)
        ensures
            reason == terminal(consecutive_moves, positions@, position_hash(board@, colour)),
    {
        if Game::is_max_consecutive_moves(consecutive_moves) {
            Some(TerminalReason::FiftyMoves)
        } else if Game::is_triple_repetition(board, colour, positions) {
            Some(TerminalReason::Repetition)
        } else {
            None
        }
    }

    /// Whether the game is over before turn `count + 1`, and why. The
    /// reasons are looked at in this order: the counter of turns is at its
    /// end; the game is drawn, see [`terminal`], with White to move; a turn
    /// has been played and White had no move in the last; a turn has been
    /// played and Black had none.
    pub fn is_over(
        &self,
        count: u8,
        last_white_move: Option<HalfMove>,
        last_black_move: Option<HalfMove>,
    ) -> (state: Result<(), TerminalReason>)
        ensures
            state == (if count >= u8::MAX {
                Err(TerminalReason::MaxTurns)
            } else if let Some(reason) = terminal(
                self.consecutive_moves,
                self.positions@,
                position_hash(self.board@, Colour::White),
            ) {
                Err(reason)
            } else if self.turns@.len() > 0 && last_white_move is None {
                Err(TerminalReason::WhiteStuck)
            } else if self.turns@.len() > 0 && last_black_move is None {
                Err(TerminalReason::BlackStuck)
            } else {
                Ok(())
            }),
    {
        if count >= u8::MAX {
            Err(TerminalReason::MaxTurns)
        } else if Game::is_max_consecutive_moves(self.consecutive_moves) {
            Err(TerminalReason::FiftyMoves)
        } else if Game::is_triple_repetition(&self.board, Colour::White, &self.positions) {
            Err(TerminalReason::Repetition)
        } else if !self.turns.is_empty() && last_white_move.is_none() {
            Err(TerminalReason::WhiteStuck)
        } else if !self.turns.is_empty() && last_black_move.is_none() {
            Err(TerminalReason::BlackStuck)
        } else {
            Ok(())
        }
    }

    /// Adds a turn to those played.
    pub fn record_turn(&mut self, turn: Turn)
        ensures
            final(self).turns@ == old(self).turns@.push(turn),
            final(self).board == old(self).board,
            final(self).consecutive_moves == old(self).consecutive_moves,
            final(self).positions == old(self).positions,
    {
        self.turns.push(turn);
    }

    /// Closes the game where White has no move: Black's last move gets the
    /// note how it ended the game, see [`closing`], and takes its place in
    /// the last turn beside White's move of that turn. The times of the turn
    /// are not kept. A turn with a move of White must have been played, and
    /// Black must have moved.
    pub fn white_is_stuck(&mut self, black_move: Option<HalfMove>) -> (last: Option<HalfMove>)
        requires
            old(self).turns@.len() > 0,
            old(self).turns@.last().moves.white_move is Some,
            black_move is Some,
        ensures
            last == closing(black_move),
            final(self).turns@ == old(self).turns@.drop_last().push(
                Turn {
                    index: old(self).turns@.last().index,
                    moves: FullMove {
                        white_move: old(self).turns@.last().moves.white_move,
                        black_move: last,
                        ..FullMove::empty()
                    },
                },
            ),
            final(self).board == old(self).board,
            final(self).consecutive_moves == old(self).consecutive_moves,
            final(self).positions == old(self).positions,
    {
        let black_move = self.eventually_set_checkmate(black_move);
        let black_move = self.eventually_set_stalemate(black_move);
        let turn = self.turns.pop().unwrap();
        let mut full_move = FullMove::new();
        full_move.set_white_move(turn.get_moves().get_white_move().unwrap());
        full_move.set_black_move(black_move.unwrap());
        self.turns.push(Turn::new(turn.get_index(), full_move));
        black_move
    }

    /// Closes the game where Black has no move: White's move of this turn
    /// gets the note how it ended the game, see [`closing`], and the turn is
    /// added to those played with that move and none of Black. White must
    /// have moved.
    pub fn black_is_stuck(
        &mut self,
        count: u8,
        full_move: FullMove,
        white_move: Option<HalfMove>,
    ) -> (last: Option<HalfMove>)
        requires
            white_move is Some,
        ensures
            last == closing(white_move),
            final(self).turns@ == old(self).turns@.push(
                Turn { index: count, moves: FullMove { white_move: last, ..full_move } },
            ),
            final(self).board == old(self).board,
            final(self).consecutive_moves == old(self).consecutive_moves,
            final(self).positions == old(self).positions,
    {
        let mut full_move = full_move;
        let white_move = self.eventually_set_checkmate(white_move);
        let white_move = self.eventually_set_stalemate(white_move);
        full_move.set_white_move(white_move.unwrap());
        self.turns.push(Turn::new(count, full_move));
        white_move
    }

    /// Whether the given side can be asked for a move in the position: see
    /// [`playable`].
    pub fn is_playable(board: &Board, colour: Colour) -> (able: bool)
        ensures
            able == playable(board@, colour),
    {
        board.is_consistent() && board.has_king(Colour::White) && board.has_king(Colour::Black)
            && !board.is_under_check(colour.get_opposite())
    }

    /// The count of moves without progress after a move: see [`next_count`].
    pub fn update_consecutive_moves(play: &HalfMove, consecutive_moves: u8) -> (count: u8)
        requires
            consecutive_moves < u8::MAX,
        ensures
            count == next_count(*play, consecutive_moves),
    {
        if play.is_capture() || play.get_piece() == PieceType::Pawn(Pawn::new(Colour::White)) {
            0
        } else {
            consecutive_moves + 1
        }
    }

    /// The legal moves of a side: see [`legal_moves`].
    pub fn select_legal_moves(&self, board: &Board, colour: Colour) -> (moves: Vec<HalfMove>)
        requires
            playable(board@, colour),
        ensures
            moves@ == legal_moves(board@, colour),
    {
        let pieces = board.get_pieces(colour);
        let mut moves: Vec<HalfMove> = Vec::new();
        let mut i: usize = 0;
        assert(pieces@.take(0) =~= Seq::empty());
        while i < pieces.len()
            invariant
                i <= pieces.len(),
                moves@ == candidate_moves(board@, pieces@.take(i as int)),
            decreases pieces.len() - i,
        {
            let (square, piece) = pieces[i];
            let found = piece.available_moves(board, &square);
            let ghost before = moves@;
            let mut j: usize = 0;
            assert(before + found@.take(0) =~= before);
            while j < found.len()
                invariant
                    j <= found.len(),
                    moves@ == before + found@.take(j as int),
                decreases found.len() - j,
            {
                moves.push(found[j]);
                assert(before + found@.take(j + 1) =~= (before + found@.take(j as int)).push(
                    found@[j as int],
                ));
                j += 1;
            }
            assert(found@.take(found.len() as int) == found@);
            assert(pieces@.take(i + 1).drop_last() == pieces@.take(i as int));
            i += 1;
        }
        assert(pieces@.take(pieces.len() as int) == pieces@);
        proof {
            lemma_listing(board@, colour, 64);
            lemma_candidates_generated(board@, colour, pieces@);
        }

        // Keep only the moves that leave the king safe
        let ghost candidates = moves@;
        let moves = self.remove_forbidden_moves(board, moves, colour);
        proof {
            lemma_allowed_moves(board@, candidates, colour);
        }

        // Note which moves give check
        let mut final_moves: Vec<HalfMove> = Vec::new();
        let mut k: usize = 0;
        while k < moves.len()
            invariant
                k <= moves.len(),
                playable(board@, colour),
                forall|i: int|
                    0 <= i < moves@.len() ==> candidates.contains(#[trigger] moves@[i]),
                forall|i: int|
                    0 <= i < candidates.len() ==> generated(
                        board@,
                        colour,
                        #[trigger] candidates[i],
                    ),
                final_moves@.len() == k,
                forall|i: int| 0 <= i < k ==> #[trigger] final_moves@[i] == tagged(board@, moves@[i]),
            decreases moves.len() - k,
        {
            let mut m = moves[k];
            proof {
                assert(candidates.contains(moves@[k as int]));
                lemma_generated(board@, colour, m);
                assert(colour.opposite() == Colour::White || colour.opposite() == Colour::Black);
            }
            m.set_check(board.is_check(m));
            final_moves.push(m);
            k += 1;
        }
        assert(final_moves@ =~= legal_moves(board@, colour));
        final_moves
    }

    /// The moves among `moves` that do not leave the king of the side under
    /// check: see [`allowed_moves`].
    pub fn remove_forbidden_moves(&self, board: &Board, moves: Vec<HalfMove>, colour: Colour) -> (valid_moves:
        Vec<HalfMove>)
        requires
            playable(board@, colour),
            forall|i: int| 0 <= i < moves@.len() ==> generated(board@, colour, #[trigger] moves@[i]),
        ensures
            valid_moves@ == allowed_moves(board@, moves@, colour),
    {
        let mut valid_moves: Vec<HalfMove> = Vec::new();
        let mut i: usize = 0;
        assert(moves@.take(0) =~= Seq::empty());
        while i < moves.len()
            invariant
                i <= moves.len(),
                playable(board@, colour),
                forall|i: int|
                    0 <= i < moves@.len() ==> generated(board@, colour, #[trigger] moves@[i]),
                valid_moves@ == allowed_moves(board@, moves@.take(i as int), colour),
            decreases moves.len() - i,
        {
            let m = moves[i];
            proof {
                lemma_generated(board@, colour, m);
                assert(colour == Colour::White || colour == Colour::Black);
            }
            let mut board = board.duplicate();
            board.execute_move(&m);
            assert(moves@.take(i + 1).drop_last() == moves@.take(i as int));
            if !board.is_under_check(colour) {
                valid_moves.push(m);
            }
            i += 1;
        }
        assert(moves@.take(moves.len() as int) == moves@);
        valid_moves
    }

    /// The pick of the search among the legal moves of a side, with its
    /// worth to the side `original_colour`: see [`best_move`].
    pub fn choose_move(
        &self,
        board: &Board,
        original_colour: Colour,
        colour: Colour,
        moves: Vec<HalfMove>,
        consecutive_moves: u8,
        positions: &Vec<u64>,
        depth: u8,
        max_depth: u8,
    ) -> (best: (Option<HalfMove>, Score))
        requires
            playable(board@, colour),
            moves@ == legal_moves(board@, colour),
        ensures
            best == best_move(
                board@,
                original_colour,
                colour,
                moves@,
                consecutive_moves,
                positions@,
                depth as nat,
                max_depth as nat,
            ),
        decreases max_depth - depth,
    {
        // The best move so far
        let mut best: (Option<HalfMove>, Score) = (None, Score::Loss);

        // A single move is played as it is
        if moves.len() == 1 {
            best.0 = Some(moves[0]);
            return best;
        }
        let is_king_alone = board.get_pieces(original_colour).len() == 1;
        proof {
            lemma_legal_moves(board@, colour);
        }

        let mut i: usize = 0;
        while i < moves.len()
            invariant
                i <= moves.len(),
                moves@.len() != 1,
                moves@ == legal_moves(board@, colour),
                forall|k: int|
                    0 <= k < moves@.len() ==> legal_move(board@, colour, #[trigger] moves@[k]),
                is_king_alone == (board@.count(original_colour) == 1),
                best_move(
                    board@,
                    original_colour,
                    colour,
                    moves@,
                    consecutive_moves,
                    positions@,
                    depth as nat,
                    max_depth as nat,
                ) == scan(
                    board@,
                    original_colour,
                    colour,
                    moves@,
                    consecutive_moves,
                    positions@,
                    depth as nat,
                    max_depth as nat,
                    i as nat,
                    best,
                ),
            decreases moves.len() - i,
        {
            let m = moves[i];
            assert(legal_move(board@, colour, m));

            // The position that the move leads to
            let mut final_board = board.duplicate();
            final_board.execute_move(&m);
            let mut actual: Score = Score::Loss;
            let mut history = positions.clone();
            assert(history@ =~= positions@);
            history.push(hash_position(&final_board, colour.get_opposite()));

            if Game::is_max_consecutive_moves(consecutive_moves) {
                // Drawn by the count of moves without progress
                actual = Game::compute_draw_value(is_king_alone);
            } else if Game::is_triple_repetition(&final_board, colour.get_opposite(), &history) {
                // Drawn by repetition
                actual = Game::compute_draw_value(is_king_alone);
            } else if depth >= max_depth {
                // The search ends here: the position is worth what it is worth
                proof {
                    lemma_has_king(final_board@, original_colour);
                    lemma_has_king(final_board@, original_colour.opposite());
                    assert(original_colour == Colour::White || original_colour == Colour::Black);
                }
                actual = self.evaluate(&final_board, original_colour);
            } else {
                // The other side replies
                let new_colour = colour.get_opposite();
                let new_moves = self.select_legal_moves(&final_board, new_colour);

                if new_moves.is_empty() {
                    if !m.is_check() {
                        // Stalemate
                        actual = Game::compute_draw_value(is_king_alone);
                    } else if m.get_piece().get_colour() == original_colour {
                        // Mate for the side that searches
                        actual = Score::Win;
                    } else {
                        // Mate against it
                        actual = Score::Loss;
                    }
                } else {
                    let updated_consecutive_moves = Game::update_consecutive_moves(
                        &m,
                        consecutive_moves,
                    );
                    let reply = self.choose_move(
                        &final_board,
                        original_colour,
                        new_colour,
                        new_moves,
                        updated_consecutive_moves,
                        &history,
                        depth + 1,
                        max_depth,
                    );
                    actual = reply.1;
                }
            }
            assert(actual == worth(
                board@,
                original_colour,
                colour,
                m,
                consecutive_moves,
                positions@,
                depth as nat,
                max_depth as nat,
            ));

            // The move is the best so far if it is worth more, or if it is the first
            if actual.better_than(&best.1) || best.0.is_none() {
                best.1 = actual;
                let mut best_move = m;
                best_move.set_evaluation(actual);
                best.0 = Some(best_move);
            }

            // A winning move is played at once
            if best.1 == Score::Win {
                return best;
            }
            i += 1;
        }

        best
    }

    /// The move that a side plays from a position: see [`selection`]. There
    /// is none exactly if the side has no legal move; the move that is
    /// played is a legal move, so it does not leave the side's own king under
    /// check.
    pub fn select_move(
        &self,
        board: &Board,
        colour: Colour,
        consecutive_moves: u8,
        positions: &Vec<u64>,
        max_depth: u8,
    ) -> (pick: Option<HalfMove>)
        requires
            playable(board@, colour),
        ensures
            pick == selection(board@, colour, consecutive_moves, positions@, max_depth as nat),
            pick is None <==> legal_moves(board@, colour).len() == 0,
            pick matches Some(play) ==> legal_move(board@, colour, play) && picked_from(
                pick,
                legal_moves(board@, colour),
            ),
    {
        proof {
            lemma_selection(board@, colour, consecutive_moves, positions@, max_depth as nat);
        }
        let moves = self.select_legal_moves(board, colour);
        if moves.is_empty() {
            None
        } else {
            self.choose_move(
                board,
                colour,
                colour,
                moves,
                consecutive_moves,
                positions,
                0,
                max_depth,
            ).0
        }
    }

    /// What a draw is worth: see [`draw_value`].
    pub fn compute_draw_value(is_king_alone: bool) -> (value: Score)
        ensures
            value == draw_value(is_king_alone),
    {
        // A side that has only its king left can hope for no more than a draw
        match is_king_alone {
            true => Score::Win,
            false => Score::Draw,
        }
    }

    /// The worth of a position to a side: see [`evaluation`]. Each side must
    /// have a piece.
    pub fn evaluate(&self, board: &Board, colour: Colour) -> (score: Score)
        requires
            board@.count(colour) > 0,
            board@.count(colour.opposite()) > 0,
        ensures
            score == evaluation(board@, colour),
    {
        let material = board.evaluate_material(colour);
        let activity = board.evaluate_activity(colour);
        let proximity = board.evaluate_proximity(colour);

        assert(MATERIAL_FACTOR * material.num * activity.den <= 255 * 64 * 64 && MATERIAL_FACTOR
            * material.num * activity.den * proximity.den <= 255 * 64 * 64 * 420) by (nonlinear_arith)
            requires
                MATERIAL_FACTOR == 1,
                material.num <= 255 * 64,
                activity.den <= 64,
                proximity.den == 420,
        ;
        assert(ACTIVITY_FACTOR * activity.num * material.den <= 255 * 64 * 64 && ACTIVITY_FACTOR
            * activity.num * material.den * proximity.den <= 255 * 64 * 64 * 420) by (nonlinear_arith)
            requires
                ACTIVITY_FACTOR == 1,
                material.den <= 255 * 64,
                activity.num <= 64,
                proximity.den == 420,
        ;
        assert(PROXIMITY_FACTOR * proximity.num * material.den <= 420 * 64 * 255 * 64
            && PROXIMITY_FACTOR * proximity.num * material.den * activity.den <= 420 * 64 * 255
            * 64 * 64) by (nonlinear_arith)
            requires
                PROXIMITY_FACTOR == 1,
                material.den <= 255 * 64,
                activity.den <= 64,
                proximity.num <= 420 * 64,
        ;
        assert(material.den * activity.den <= 255 * 64 * 64 && material.den * activity.den
            * proximity.den <= 255 * 64 * 64 * 420) by (nonlinear_arith)
            requires
                material.den <= 255 * 64,
                activity.den <= 64,
                proximity.den == 420,
        ;
        let num: u64 = MATERIAL_FACTOR * material.num * activity.den * proximity.den
            + ACTIVITY_FACTOR * activity.num * material.den * proximity.den + PROXIMITY_FACTOR
            * proximity.num * material.den * activity.den;
        let den: u64 = material.den * activity.den * proximity.den;
        assert((num as int, den as int) == weighted_sum(material, activity, proximity));

        Score::Value(Ratio::new(num, den))
    }

    /// Whether the position with the given side to move occurs three times
    /// or more in the history.
    pub fn is_triple_repetition(board: &Board, colour: Colour, positions: &Vec<u64>) -> (repeated:
        bool)
        ensures
            repeated == (occurrences(positions@, position_hash(board@, colour)) >= 3),
    {
        let hash = hash_position(board, colour);
        let mut count: usize = 0;
        let mut i: usize = 0;
        assert(positions@.take(0) =~= Seq::empty());
        while i < positions.len()
            invariant
                i <= positions.len(),
                count <= i,
                count == occurrences(positions@.take(i as int), hash),
            decreases positions.len() - i,
        {
            assert(positions@.take(i + 1).drop_last() == positions@.take(i as int));
            if positions[i] == hash {
                count += 1;
            }
            i += 1;
        }
        assert(positions@.take(positions.len() as int) == positions@);
        count >= 3
    }

    /// Whether the count of moves without progress has reached its limit:
    /// fifty moves of each side.
    pub fn is_max_consecutive_moves(consecutive_moves: u8) -> (reached: bool)
        ensures
            reached == (consecutive_moves >= MAX_CONSECUTIVE_MOVES),
    {
        consecutive_moves >= MAX_CONSECUTIVE_MOVES
    }
}

} // verus!
