use chess_engine::game::game::{Game, TerminalReason};
use chess_engine::game::play::{FullMove, HalfMove, Seconds};
use chess_engine::game::score::{Ratio, Score};
use chess_engine::game::turn::Turn;
use chess_engine::model::board::board::Board;
use chess_engine::model::board::square::Square;
use chess_engine::model::piece::color::Colour;
use chess_engine::model::piece::king::King;
use chess_engine::model::piece::knight::Knight;
use chess_engine::model::piece::pawn::Pawn;
use chess_engine::model::piece::piece::{Piece, PieceType};
use chess_engine::model::piece::queen::Queen;
use chess_engine::model::piece::rook::Rook;
use chess_engine::utils::{hash_position, init_black_pieces, init_squares, init_white_pieces};

fn initial_board() -> Board {
    Board::new(init_squares(), init_white_pieces(), init_black_pieces())
}

fn board_of(white: Vec<(Square, PieceType)>, black: Vec<(Square, PieceType)>) -> Board {
    Board::new(init_squares(), white, black)
}

fn king(colour: Colour) -> PieceType {
    PieceType::King(King::new(colour))
}

fn two_kings() -> Board {
    board_of(
        vec![(Square::new(0, 4), king(Colour::White))],
        vec![(Square::new(7, 4), king(Colour::Black))],
    )
}

fn play(piece: PieceType, from: (u8, u8), to: (u8, u8), capture: bool) -> HalfMove {
    HalfMove::new(
        piece,
        Square::new(from.0, from.1),
        Square::new(to.0, to.1),
        capture,
        false,
        false,
        false,
        false,
        Score::Value(Ratio::new(0, 1)),
    )
}

fn zero() -> Score {
    Score::Value(Ratio::new(0, 1))
}

#[test]
fn first_position_has_twenty_legal_moves() {
    let game = Game::new();
    let board = initial_board();
    assert!(Game::is_playable(&board, Colour::White));
    let moves = game.select_legal_moves(&board, Colour::White);
    assert_eq!(moves.len(), 20);
    assert!(moves.iter().all(|m| !m.is_check() && !m.is_capture()));
    // the knight on b1 comes first, then the knight on g1, then the pawns from a to h
    assert_eq!((moves[0].get_from(), moves[0].get_to()), (Square::new(0, 1), Square::new(2, 2)));
    assert_eq!((moves[1].get_from(), moves[1].get_to()), (Square::new(0, 1), Square::new(2, 0)));
    assert_eq!((moves[2].get_from(), moves[2].get_to()), (Square::new(0, 6), Square::new(2, 7)));
    assert_eq!((moves[4].get_from(), moves[4].get_to()), (Square::new(1, 0), Square::new(2, 0)));
    assert_eq!((moves[19].get_from(), moves[19].get_to()), (Square::new(1, 7), Square::new(3, 7)));
    assert_eq!(game.select_legal_moves(&board, Colour::Black).len(), 20);
}

#[test]
fn first_move_is_made_by_a_pawn_or_a_knight() {
    let game = Game::new();
    let board = initial_board();
    let positions = vec![hash_position(&board, Colour::White)];
    let chosen = game.select_move(&board, Colour::White, 0, &positions, 0).unwrap();
    let mover = board.get_piece(chosen.get_from(), Some(Colour::White)).unwrap();
    assert!(mover.get_symbol() == 'P' || mover.get_symbol() == 'N');
    let mut after = board.duplicate();
    after.execute_move(&chosen);
    assert!(!after.is_under_check(Colour::White));
}

#[test]
fn first_move_without_lookahead_is_the_queens_pawn_two_squares() {
    let game = Game::new();
    let board = initial_board();
    let positions = vec![hash_position(&board, Colour::White)];
    let chosen = game.select_move(&board, Colour::White, 0, &positions, 0).unwrap();
    assert_eq!(chosen.get_from(), Square::new(1, 3));
    assert_eq!(chosen.get_to(), Square::new(3, 3));
    // material 294/294, activity 19/16, pawns 280/420, over the common denominator
    assert_eq!(
        chosen.get_evaluation(),
        Score::Value(Ratio::new(
            294 * 16 * 420 + 19 * 294 * 420 + 280 * 294 * 16,
            294 * 16 * 420
        ))
    );
}

#[test]
fn position_is_worth_the_weighted_sum_of_its_three_parts() {
    let game = Game::new();
    let board = initial_board();
    assert_eq!(
        game.evaluate(&board, Colour::White),
        Score::Value(Ratio::new(2 * 294 * 16 * 420, 294 * 16 * 420))
    );
    let lone = board_of(vec![(Square::new(0, 0), king(Colour::White))], vec![(Square::new(7, 7), king(Colour::Black))]);
    assert_eq!(
        game.evaluate(&lone, Colour::Black),
        Score::Value(Ratio::new(255 * 3 * 420 + 3 * 255 * 420, 255 * 3 * 420))
    );
}

#[test]
fn position_in_which_the_enemy_controls_nothing_is_worth_more_than_a_win() {
    let game = Game::new();
    // the black king is walled in by its own pawns, which have come to the
    // end of the board and can go no further
    let board = board_of(
        vec![(Square::new(7, 0), king(Colour::White))],
        vec![
            (Square::new(0, 7), king(Colour::Black)),
            (Square::new(0, 6), PieceType::Pawn(Pawn::new(Colour::Black))),
            (Square::new(1, 6), PieceType::Pawn(Pawn::new(Colour::Black))),
            (Square::new(1, 7), PieceType::Pawn(Pawn::new(Colour::Black))),
        ],
    );
    assert_eq!(board.evaluate_activity(Colour::Black).num, 0);
    let worth = game.evaluate(&board, Colour::White);
    match worth {
        Score::Value(ratio) => {
            assert_eq!(ratio.den, 0);
            assert!(ratio.num > 0);
        }
        _ => panic!("the worth of a position is a value"),
    }
    assert!(worth.better_than(&Score::Win));
    assert!(!Score::Win.better_than(&worth));
}

#[test]
fn lone_king_scores_a_draw_as_a_win() {
    let game = Game::new();
    let board = two_kings();
    assert!(Game::is_playable(&board, Colour::White));
    let positions = vec![hash_position(&board, Colour::White)];
    for depth in 0..3u8 {
        let chosen = game.select_move(&board, Colour::White, 100, &positions, depth).unwrap();
        assert_eq!(chosen.get_evaluation(), Score::Win);
        assert_eq!(chosen.get_piece().get_symbol(), 'K');
        // the first move scored ends the search
        assert_eq!(chosen.get_to(), Square::new(1, 4));
    }
}

#[test]
fn lone_king_scores_a_repetition_as_a_win() {
    let game = Game::new();
    let board = two_kings();
    // the position after the king's first candidate move, with Black to move
    let mut after = board.duplicate();
    after.execute_move(&play(king(Colour::White), (0, 4), (1, 4), false));
    let seen = hash_position(&after, Colour::Black);
    let positions = vec![hash_position(&board, Colour::White), seen, seen];
    let chosen = game.select_move(&board, Colour::White, 0, &positions, 2).unwrap();
    assert_eq!(chosen.get_evaluation(), Score::Win);
    assert_eq!(chosen.get_to(), Square::new(1, 4));
}

#[test]
fn two_kings_with_a_fresh_history_are_scored_by_the_position() {
    let game = Game::new();
    let board = two_kings();
    let positions = vec![hash_position(&board, Colour::White)];
    let chosen = game.select_move(&board, Colour::White, 0, &positions, 0).unwrap();
    match chosen.get_evaluation() {
        Score::Value(ratio) => assert!(ratio.num > 0 && ratio.den > 0),
        other => panic!("a position's value was expected, not {:?}", other),
    }
}

#[test]
fn side_with_more_than_a_king_scores_a_draw_as_a_draw() {
    let game = Game::new();
    let board = initial_board();
    let positions = vec![hash_position(&board, Colour::White)];
    let chosen = game.select_move(&board, Colour::White, 100, &positions, 1).unwrap();
    assert_eq!(chosen.get_evaluation(), Score::Draw);
    // all moves are worth the same, so the first one stays
    assert_eq!((chosen.get_from(), chosen.get_to()), (Square::new(0, 1), Square::new(2, 2)));
}

#[test]
fn counter_at_ninety_nine_is_no_draw_yet() {
    let game = Game::new();
    let board = initial_board();
    let positions = vec![hash_position(&board, Colour::White)];
    let chosen = game.select_move(&board, Colour::White, 99, &positions, 0).unwrap();
    assert!(matches!(chosen.get_evaluation(), Score::Value(_)));
    assert_eq!(Game::is_game_terminal(99, &positions, &board, Colour::White), None);
    assert!(!Game::is_max_consecutive_moves(99));
}

#[test]
fn counter_at_one_hundred_is_a_fifty_move_draw() {
    let board = initial_board();
    let positions = vec![hash_position(&board, Colour::White)];
    assert_eq!(
        Game::is_game_terminal(100, &positions, &board, Colour::White),
        Some(TerminalReason::FiftyMoves)
    );
    assert!(Game::is_max_consecutive_moves(100));
    assert!(Game::is_max_consecutive_moves(255));
    let mut game = Game::new();
    game.consecutive_moves = 100;
    assert_eq!(game.is_over(0, None, None), Err(TerminalReason::FiftyMoves));
    game.consecutive_moves = 99;
    assert_eq!(game.is_over(0, None, None), Ok(()));
}

#[test]
fn same_position_three_times_is_a_repetition() {
    let board = initial_board();
    let hash = hash_position(&board, Colour::White);
    let other = hash_position(&board, Colour::Black);
    let thrice = vec![hash, other, hash, other, hash];
    assert_eq!(
        Game::is_game_terminal(0, &thrice, &board, Colour::White),
        Some(TerminalReason::Repetition)
    );
    assert!(Game::is_triple_repetition(&board, Colour::White, &thrice));
    // the other side to move is another position, seen twice only
    assert_eq!(Game::is_game_terminal(0, &thrice, &board, Colour::Black), None);
    let twice = vec![hash, other, hash];
    assert_eq!(Game::is_game_terminal(0, &twice, &board, Colour::White), None);
    let mut game = Game::new();
    game.positions = thrice;
    assert_eq!(game.is_over(0, None, None), Err(TerminalReason::Repetition));
}

#[test]
fn fifty_moves_come_before_repetition() {
    let board = initial_board();
    let hash = hash_position(&board, Colour::White);
    let thrice = vec![hash, hash, hash];
    assert_eq!(
        Game::is_game_terminal(100, &thrice, &board, Colour::White),
        Some(TerminalReason::FiftyMoves)
    );
}

#[test]
fn reasons_for_the_end_come_in_their_order() {
    let mut game = Game::new();
    let some = Some(play(PieceType::Knight(Knight::new(Colour::White)), (0, 1), (2, 2), false));
    assert_eq!(game.is_over(255, some, some), Err(TerminalReason::MaxTurns));
    assert_eq!(game.is_over(254, some, some), Ok(()));
    // before the first turn a missing move ends nothing
    assert_eq!(game.is_over(0, None, None), Ok(()));
    game.record_turn(Turn::new(1, FullMove::new()));
    assert_eq!(game.is_over(1, None, None), Err(TerminalReason::WhiteStuck));
    assert_eq!(game.is_over(1, None, some), Err(TerminalReason::WhiteStuck));
    assert_eq!(game.is_over(1, some, None), Err(TerminalReason::BlackStuck));
    assert_eq!(game.is_over(1, some, some), Ok(()));
    game.consecutive_moves = 100;
    assert_eq!(game.is_over(255, None, None), Err(TerminalReason::MaxTurns));
    assert_eq!(game.is_over(1, None, None), Err(TerminalReason::FiftyMoves));
}

#[test]
fn reasons_in_words() {
    assert_eq!(TerminalReason::MaxTurns.message(), "Max number of turns");
    assert_eq!(
        TerminalReason::FiftyMoves.message(),
        "50 consecutive turns without captures or pawn moves"
    );
    assert_eq!(TerminalReason::Repetition.message(), "Same position repeated for 3 times");
    assert_eq!(TerminalReason::WhiteStuck.message(), "White doesn't have any legal move to play");
    assert_eq!(TerminalReason::BlackStuck.message(), "Black doesn't have any legal move to play");
}

#[test]
fn mate_in_one_is_found_and_scored_as_a_win() {
    let game = Game::new();
    let board = board_of(
        vec![
            (Square::new(5, 6), king(Colour::White)),
            (Square::new(6, 0), PieceType::Queen(Queen::new(Colour::White))),
        ],
        vec![(Square::new(7, 7), king(Colour::Black))],
    );
    assert!(Game::is_playable(&board, Colour::White));
    let positions = vec![hash_position(&board, Colour::White)];
    let chosen = game.select_move(&board, Colour::White, 0, &positions, 1).unwrap();
    assert_eq!(chosen.get_evaluation(), Score::Win);
    assert!(chosen.is_check());
    assert_eq!(chosen.get_piece().get_symbol(), 'Q');
    // the queen's first slide goes up the file: a7 to a8 mates
    assert_eq!(chosen.get_to(), Square::new(7, 0));
    let mut after = board.duplicate();
    after.execute_move(&chosen);
    assert!(after.is_under_check(Colour::Black));
    assert!(game.select_legal_moves(&after, Colour::Black).is_empty());
}

#[test]
fn only_move_is_played_unscored() {
    let game = Game::new();
    let board = board_of(
        vec![(Square::new(0, 0), king(Colour::White))],
        vec![
            (Square::new(4, 1), PieceType::Rook(Rook::new(Colour::Black))),
            (Square::new(7, 7), king(Colour::Black)),
        ],
    );
    let moves = game.select_legal_moves(&board, Colour::White);
    assert_eq!(moves.len(), 1);
    let positions = vec![hash_position(&board, Colour::White)];
    let chosen = game.select_move(&board, Colour::White, 0, &positions, 2).unwrap();
    assert_eq!((chosen.get_from(), chosen.get_to()), (Square::new(0, 0), Square::new(1, 0)));
    assert_eq!(chosen.get_evaluation(), zero());
    let best = game.choose_move(&board, Colour::White, Colour::White, moves, 0, &positions, 0, 2);
    assert_eq!(best.1, Score::Loss);
}

#[test]
fn side_without_a_legal_move_plays_none() {
    let game = Game::new();
    let board = board_of(
        vec![(Square::new(0, 0), king(Colour::White))],
        vec![
            (Square::new(2, 1), PieceType::Queen(Queen::new(Colour::Black))),
            (Square::new(7, 7), king(Colour::Black)),
        ],
    );
    assert!(!board.is_under_check(Colour::White));
    assert!(game.select_legal_moves(&board, Colour::White).is_empty());
    let positions = vec![hash_position(&board, Colour::White)];
    assert!(game.select_move(&board, Colour::White, 0, &positions, 1).is_none());
}

#[test]
fn move_that_leaves_the_king_in_check_is_not_legal() {
    let game = Game::new();
    // the white rook is pinned on the e-file by the black rook
    let board = board_of(
        vec![
            (Square::new(0, 4), king(Colour::White)),
            (Square::new(1, 4), PieceType::Rook(Rook::new(Colour::White))),
        ],
        vec![
            (Square::new(7, 4), PieceType::Rook(Rook::new(Colour::Black))),
            (Square::new(7, 0), king(Colour::Black)),
        ],
    );
    let moves = game.select_legal_moves(&board, Colour::White);
    for m in &moves {
        if m.get_piece().get_symbol() == 'R' {
            assert_eq!(m.get_to().get_file(), 4);
        }
    }
    let rook_moves = moves.iter().filter(|m| m.get_piece().get_symbol() == 'R').count();
    assert_eq!(rook_moves, 6);
    // the capture of the pinning rook gives check along the rank
    let capture = moves.iter().find(|m| m.is_capture()).unwrap();
    assert_eq!(capture.get_to(), Square::new(7, 4));
    assert!(capture.is_check());
}

#[test]
fn filtering_twice_is_filtering_once() {
    let game = Game::new();
    let board = board_of(
        vec![
            (Square::new(0, 4), king(Colour::White)),
            (Square::new(1, 4), PieceType::Rook(Rook::new(Colour::White))),
            (Square::new(1, 0), PieceType::Pawn(Pawn::new(Colour::White))),
        ],
        vec![
            (Square::new(7, 4), PieceType::Rook(Rook::new(Colour::Black))),
            (Square::new(7, 0), king(Colour::Black)),
        ],
    );
    let mut candidates = Vec::new();
    for (square, piece) in board.get_pieces(Colour::White) {
        candidates.extend(piece.available_moves(&board, &square));
    }
    let once = game.remove_forbidden_moves(&board, candidates.clone(), Colour::White);
    let twice = game.remove_forbidden_moves(&board, once.clone(), Colour::White);
    assert!(once.len() < candidates.len());
    assert_eq!(once.len(), twice.len());
    for (a, b) in once.iter().zip(twice.iter()) {
        assert_eq!((a.get_from(), a.get_to()), (b.get_from(), b.get_to()));
    }
    let first: Vec<(Square, Square)> =
        game.select_legal_moves(&board, Colour::White).iter().map(|m| (m.get_from(), m.get_to())).collect();
    let second: Vec<(Square, Square)> =
        game.select_legal_moves(&board, Colour::White).iter().map(|m| (m.get_from(), m.get_to())).collect();
    assert_eq!(first, second);
}

#[test]
fn count_of_moves_without_progress() {
    let knight = PieceType::Knight(Knight::new(Colour::Black));
    assert_eq!(Game::update_consecutive_moves(&play(knight, (7, 1), (5, 2), false), 7), 8);
    assert_eq!(Game::update_consecutive_moves(&play(knight, (7, 1), (5, 2), true), 7), 0);
    // a pawn of either colour resets the count
    let black_pawn = PieceType::Pawn(Pawn::new(Colour::Black));
    assert_eq!(Game::update_consecutive_moves(&play(black_pawn, (6, 0), (5, 0), false), 7), 0);
    let white_pawn = PieceType::Pawn(Pawn::new(Colour::White));
    assert_eq!(Game::update_consecutive_moves(&play(white_pawn, (1, 0), (2, 0), false), 99), 0);
    assert_eq!(Game::update_consecutive_moves(&play(knight, (7, 1), (5, 2), false), 0), 1);
}

#[test]
fn draw_is_a_win_for_a_lone_king_only() {
    assert_eq!(Game::compute_draw_value(true), Score::Win);
    assert_eq!(Game::compute_draw_value(false), Score::Draw);
}

#[test]
fn scores_are_ordered() {
    let half = Score::Value(Ratio::new(1, 2));
    let two_thirds = Score::Value(Ratio::new(2, 3));
    let also_half = Score::Value(Ratio::new(210, 420));
    assert!(Score::Draw.better_than(&Score::Loss));
    assert!(!Score::Loss.better_than(&Score::Draw));
    assert!(half.better_than(&Score::Draw));
    assert!(zero().better_than(&Score::Draw));
    assert!(Score::Win.better_than(&two_thirds));
    assert!(two_thirds.better_than(&half));
    assert!(!half.better_than(&two_thirds));
    assert!(!half.better_than(&also_half));
    assert!(!also_half.better_than(&half));
    assert!(!Score::Win.better_than(&Score::Win));
    assert!(!Score::Loss.better_than(&Score::Loss));
    let big = Score::Value(Ratio::new(u64::MAX, 1));
    let bigger = Score::Value(Ratio::new(u64::MAX, u64::MAX - 1));
    assert!(big.better_than(&bigger));
    assert!(Score::Win.better_than(&big));
}

#[test]
fn undefined_score_is_neither_greater_nor_smaller() {
    let undefined = Score::Value(Ratio::new(0, 0));
    let unbounded = Score::Value(Ratio::new(5, 0));
    for other in [Score::Loss, Score::Draw, zero(), Score::Win, unbounded, undefined] {
        assert!(!undefined.better_than(&other));
        assert!(!other.better_than(&undefined));
    }
    assert!(unbounded.better_than(&Score::Win));
    assert!(!unbounded.better_than(&Score::Value(Ratio::new(7, 0))));
}

#[test]
fn new_game_starts_with_the_first_position_in_its_history() {
    let game = Game::new();
    assert!(game.get_turns().is_empty());
    assert_eq!(game.consecutive_moves, 0);
    assert_eq!(game.positions, vec![hash_position(&initial_board(), Colour::White)]);
    assert_eq!(game.get_board().get_pieces(Colour::White).len(), 16);
    assert!(Game::is_playable(game.get_board(), Colour::White));
    assert_eq!(game.is_over(0, None, None), Ok(()));
}

#[test]
fn turn_is_played_on_the_board_and_joins_the_history() {
    let mut game = Game::new();
    let white = game.play_turn(Colour::White, 0).unwrap();
    assert_eq!((white.get_from(), white.get_to()), (Square::new(1, 3), Square::new(3, 3)));
    assert!(game.get_board().is_square_free(&Square::new(1, 3)));
    assert!(!game.get_board().is_square_free(&Square::new(3, 3)));
    assert_eq!(game.consecutive_moves, 0);
    assert_eq!(game.positions.len(), 2);
    assert_eq!(game.positions[1], hash_position(game.get_board(), Colour::Black));
    assert!(Game::is_playable(game.get_board(), Colour::Black));
    let black = game.play_turn(Colour::Black, 0).unwrap();
    assert_eq!(black.get_piece().get_colour(), Colour::Black);
    assert_eq!(game.positions.len(), 3);
    assert_eq!(game.positions[2], hash_position(game.get_board(), Colour::White));
    assert!(game.get_turns().is_empty());
}

#[test]
fn king_move_counts_as_a_move_without_progress() {
    let mut game = Game::new();
    game.board = two_kings();
    game.consecutive_moves = 41;
    let played = game.play_turn(Colour::White, 0).unwrap();
    assert_eq!(played.get_piece().get_symbol(), 'K');
    assert_eq!(game.consecutive_moves, 42);
}

#[test]
fn side_that_cannot_move_leaves_the_game_as_it_is() {
    let mut game = Game::new();
    game.board = board_of(
        vec![(Square::new(0, 0), king(Colour::White))],
        vec![
            (Square::new(2, 1), PieceType::Queen(Queen::new(Colour::Black))),
            (Square::new(7, 7), king(Colour::Black)),
        ],
    );
    let before = hash_position(game.get_board(), Colour::White);
    assert!(game.play_turn(Colour::White, 1).is_none());
    assert_eq!(hash_position(game.get_board(), Colour::White), before);
    assert_eq!(game.positions.len(), 1);
    assert_eq!(game.consecutive_moves, 0);
}

#[test]
fn last_move_is_tagged_mate_if_it_gives_check_and_else_stalemate() {
    let game = Game::new();
    let mut checking = play(PieceType::Queen(Queen::new(Colour::White)), (6, 0), (7, 0), false);
    checking.set_check(true);
    let mated = game.eventually_set_stalemate(game.eventually_set_checkmate(Some(checking))).unwrap();
    assert!(mated.is_checkmate());
    assert!(!mated.is_stalemate());
    let quiet = play(PieceType::Queen(Queen::new(Colour::White)), (6, 0), (2, 1), false);
    let stale = game.eventually_set_stalemate(game.eventually_set_checkmate(Some(quiet))).unwrap();
    assert!(!stale.is_checkmate());
    assert!(stale.is_stalemate());
    assert!(game.eventually_set_checkmate(None).is_none());
    assert!(game.eventually_set_stalemate(None).is_none());
}

#[test]
fn game_is_closed_when_black_has_no_move() {
    let mut game = Game::new();
    let mut white = play(PieceType::Queen(Queen::new(Colour::White)), (6, 0), (7, 0), false);
    white.set_check(true);
    let mut full_move = FullMove::new();
    full_move.set_white_move(white);
    full_move.set_white_seconds(Seconds::new(1_500_000));
    let last = game.black_is_stuck(3, full_move, Some(white)).unwrap();
    assert!(last.is_checkmate());
    let turns = game.get_turns();
    assert_eq!(turns.len(), 1);
    assert_eq!(turns[0].get_index(), 3);
    assert!(turns[0].get_moves().get_white_move().unwrap().is_checkmate());
    assert!(turns[0].get_moves().get_black_move().is_none());
    assert_eq!(turns[0].get_moves().get_white_seconds(), Seconds::new(1_500_000));
    assert_eq!(game.is_over(3, Some(last), None), Err(TerminalReason::BlackStuck));
}

#[test]
fn game_is_closed_when_white_has_no_move() {
    let mut game = Game::new();
    let white = play(PieceType::Knight(Knight::new(Colour::White)), (0, 1), (2, 2), false);
    let black = play(PieceType::Queen(Queen::new(Colour::Black)), (7, 3), (2, 1), false);
    let mut full_move = FullMove::new();
    full_move.set_white_move(white);
    full_move.set_white_seconds(Seconds::new(7));
    full_move.set_black_move(black);
    full_move.set_black_seconds(Seconds::new(9));
    game.record_turn(Turn::new(1, FullMove::new()));
    game.record_turn(Turn::new(2, full_move));
    let last = game.white_is_stuck(Some(black)).unwrap();
    assert!(last.is_stalemate());
    assert!(!last.is_checkmate());
    let turns = game.get_turns();
    assert_eq!(turns.len(), 2);
    assert_eq!(turns[1].get_index(), 2);
    assert_eq!(turns[1].get_moves().get_white_move().unwrap().get_to(), Square::new(2, 2));
    assert!(turns[1].get_moves().get_black_move().unwrap().is_stalemate());
    // the times of the turn are not kept
    assert_eq!(turns[1].get_moves().get_white_seconds(), Seconds::new(0));
    assert_eq!(turns[1].get_moves().get_black_seconds(), Seconds::new(0));
    assert_eq!(game.is_over(2, None, Some(last)), Err(TerminalReason::WhiteStuck));
}

#[test]
fn moves_in_writing() {
    let pawn = PieceType::Pawn(Pawn::new(Colour::White));
    assert_eq!(play(pawn, (1, 4), (3, 4), false).notation(), "\0e4");
    assert_eq!(play(pawn, (3, 3), (4, 4), true).notation(), "dxe5");
    let knight = PieceType::Knight(Knight::new(Colour::Black));
    assert_eq!(play(knight, (7, 6), (5, 5), false).notation(), "Nf6");
    assert_eq!(play(knight, (7, 6), (5, 5), true).notation(), "Nxf6");
    let mut promotion = play(pawn, (6, 0), (7, 1), true);
    promotion.set_promotion(true);
    promotion.set_check(true);
    assert_eq!(promotion.notation(), "axb8Q+");
    promotion.set_checkmate(true);
    assert_eq!(promotion.notation(), "axb8Q#");
    let mut stale = play(king(Colour::White), (0, 4), (1, 4), false);
    stale.set_stalemate(true);
    assert_eq!(stale.notation(), "Ke2(=)");
    let mut queen = play(PieceType::Queen(Queen::new(Colour::White)), (0, 3), (7, 3), false);
    queen.set_check(true);
    assert_eq!(queen.notation(), "Qd8+");
    assert_eq!(play(PieceType::Rook(Rook::new(Colour::White)), (0, 0), (0, 7), false).notation(), "Rh1");
}

#[test]
fn squares_in_writing() {
    assert_eq!(Square::new(0, 0).notation(), "a1");
    assert_eq!(Square::new(7, 7).notation(), "h8");
    assert_eq!(Square::new(3, 4).notation(), "e4");
    assert_eq!(Square::new(9, 2).notation(), "c10");
    assert_eq!(Square::new(254, 0).notation(), "a255");
    assert_eq!(Square::new(99, 1).notation(), "b100");
}

#[test]
fn half_move_keeps_what_it_is_given() {
    let mut m = HalfMove::new(
        PieceType::Rook(Rook::new(Colour::Black)),
        Square::new(7, 0),
        Square::new(0, 0),
        true,
        false,
        true,
        false,
        false,
        Score::Draw,
    );
    assert_eq!(m.get_from(), Square::new(7, 0));
    assert_eq!(m.get_to(), Square::new(0, 0));
    assert!(m.is_capture() && m.is_check());
    assert!(!m.is_promotion() && !m.is_checkmate() && !m.is_stalemate());
    assert_eq!(m.get_evaluation(), Score::Draw);
    m.set_evaluation(Score::Win);
    m.set_check(false);
    m.set_stalemate(true);
    assert_eq!(m.get_evaluation(), Score::Win);
    assert!(!m.is_check() && m.is_stalemate());
    assert_eq!(m.get_piece().get_colour(), Colour::Black);
}

#[test]
fn search_one_ply_deeper_returns_a_scored_legal_move() {
    let game = Game::new();
    let board = initial_board();
    let positions = vec![hash_position(&board, Colour::White)];
    let chosen = game.select_move(&board, Colour::White, 0, &positions, 1).unwrap();
    let legal = game.select_legal_moves(&board, Colour::White);
    assert!(legal
        .iter()
        .any(|m| m.get_from() == chosen.get_from() && m.get_to() == chosen.get_to()));
    match chosen.get_evaluation() {
        Score::Value(ratio) => {
            assert!(ratio.den > 0);
            // no reply changes the material, so the worth is above one
            assert!(ratio.num > ratio.den);
        }
        other => panic!("a position's value was expected, not {:?}", other),
    }
}

#[test]
fn mate_in_one_is_still_found_two_plies_deep() {
    let game = Game::new();
    let board = board_of(
        vec![
            (Square::new(5, 6), king(Colour::White)),
            (Square::new(6, 0), PieceType::Queen(Queen::new(Colour::White))),
        ],
        vec![(Square::new(7, 7), king(Colour::Black))],
    );
    let positions = vec![hash_position(&board, Colour::White)];
    let chosen = game.select_move(&board, Colour::White, 0, &positions, 2).unwrap();
    assert_eq!(chosen.get_evaluation(), Score::Win);
    assert!(chosen.is_check());
}

#[test]
fn move_that_leaves_no_reply_and_gives_no_check_stalemates() {
    let game = Game::new();
    // White to move: the queen's move from c2 to b3 leaves Black without a move
    let board = board_of(
        vec![
            (Square::new(7, 7), king(Colour::White)),
            (Square::new(1, 2), PieceType::Queen(Queen::new(Colour::White))),
        ],
        vec![(Square::new(0, 0), king(Colour::Black))],
    );
    assert!(Game::is_playable(&board, Colour::White));
    let legal = game.select_legal_moves(&board, Colour::White);
    let stalemating: Vec<HalfMove> = legal
        .iter()
        .filter(|m| m.get_to() == Square::new(2, 1) && m.get_piece().get_symbol() == 'Q')
        .cloned()
        .collect();
    assert_eq!(stalemating.len(), 1);
    assert!(!stalemating[0].is_check());
    let mut after = board.duplicate();
    after.execute_move(&stalemating[0]);
    assert!(game.select_legal_moves(&after, Colour::Black).is_empty());
    assert!(!after.is_under_check(Colour::Black));
    // a position in which the side that has moved could take the king is not playable
    let checked = board_of(
        vec![
            (Square::new(7, 7), king(Colour::White)),
            (Square::new(2, 2), PieceType::Queen(Queen::new(Colour::White))),
        ],
        vec![(Square::new(0, 0), king(Colour::Black))],
    );
    assert!(!Game::is_playable(&checked, Colour::White));
    assert!(Game::is_playable(&checked, Colour::Black));
}

#[test]
fn lone_king_scores_its_own_stalemate_as_a_win() {
    let game = Game::new();
    // Black to move; the search is made for White, which has its king only
    let board = board_of(
        vec![(Square::new(0, 0), king(Colour::White))],
        vec![
            (Square::new(1, 2), PieceType::Queen(Queen::new(Colour::Black))),
            (Square::new(7, 7), king(Colour::Black)),
        ],
    );
    assert!(Game::is_playable(&board, Colour::Black));
    let moves = game.select_legal_moves(&board, Colour::Black);
    let positions = vec![hash_position(&board, Colour::Black)];
    let best = game.choose_move(&board, Colour::White, Colour::Black, moves, 0, &positions, 0, 1);
    assert_eq!(best.1, Score::Win);
    let chosen = best.0.unwrap();
    // the queen's slides up the file leave White a move; the first slide to the
    // north-west, to b3, leaves it none
    assert_eq!((chosen.get_from(), chosen.get_to()), (Square::new(1, 2), Square::new(2, 1)));
    assert!(!chosen.is_check());
    assert_eq!(chosen.get_evaluation(), Score::Win);
}
