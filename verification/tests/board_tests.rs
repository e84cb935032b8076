use chess_engine::game::play::HalfMove;
use chess_engine::game::score::{Ratio, Score};
use chess_engine::model::board::board::Board;
use chess_engine::model::board::square::Square;
use chess_engine::model::piece::color::Colour;
use chess_engine::model::piece::king::King;
use chess_engine::model::piece::knight::Knight;
use chess_engine::model::piece::pawn::Pawn;
use chess_engine::model::piece::piece::{Piece, PieceType};
use chess_engine::model::piece::queen::Queen;
use chess_engine::model::piece::rook::Rook;
use chess_engine::utils::{hash_position, init_black_pieces, init_squares, init_white_pieces};

fn initial_board() -> Board {
    Board::new(init_squares(), init_white_pieces(), init_black_pieces())
}

fn board_of(white: Vec<(Square, PieceType)>, black: Vec<(Square, PieceType)>) -> Board {
    Board::new(init_squares(), white, black)
}

fn play(piece: PieceType, from: (u8, u8), to: (u8, u8), capture: bool, promotion: bool) -> HalfMove {
    HalfMove::new(
        piece,
        Square::new(from.0, from.1),
        Square::new(to.0, to.1),
        capture,
        promotion,
        false,
        false,
        false,
        Score::Value(Ratio::new(0, 1)),
    )
}

fn king(colour: Colour) -> PieceType {
    PieceType::King(King::new(colour))
}

#[test]
fn later_piece_replaces_earlier_on_the_same_square() {
    let board = board_of(
        vec![
            (Square::new(2, 2), PieceType::Knight(Knight::new(Colour::White))),
            (Square::new(2, 2), PieceType::Queen(Queen::new(Colour::White))),
        ],
        vec![],
    );
    assert_eq!(board.get_pieces(Colour::White).len(), 1);
    assert_eq!(board.get_piece(Square::new(2, 2), None).unwrap().get_symbol(), 'Q');
}

#[test]
fn piece_off_the_board_is_left_out() {
    let board = board_of(
        vec![(Square::new(8, 0), king(Colour::White)), (Square::new(0, 9), king(Colour::White))],
        vec![(Square::new(7, 7), king(Colour::Black))],
    );
    assert!(board.get_pieces(Colour::White).is_empty());
    assert_eq!(board.get_pieces(Colour::Black).len(), 1);
    assert!(!board.has_king(Colour::White));
    assert!(board.has_king(Colour::Black));
}

#[test]
fn pieces_are_listed_in_rank_major_order() {
    let board = board_of(
        vec![
            (Square::new(3, 1), PieceType::Knight(Knight::new(Colour::White))),
            (Square::new(0, 7), king(Colour::White)),
            (Square::new(3, 0), PieceType::Queen(Queen::new(Colour::White))),
        ],
        vec![],
    );
    let listed: Vec<(Square, char)> =
        board.get_pieces(Colour::White).iter().map(|(s, p)| (*s, p.get_symbol())).collect();
    assert_eq!(
        listed,
        vec![(Square::new(0, 7), 'K'), (Square::new(3, 0), 'Q'), (Square::new(3, 1), 'N')]
    );
    let squares = board.get_squares();
    assert_eq!(squares[0], Square::new(0, 0));
    assert_eq!(squares[9], Square::new(1, 1));
    assert_eq!(squares[63], Square::new(7, 7));
}

#[test]
fn quiet_move_moves_the_piece_and_clears_its_first_move() {
    let mut board = initial_board();
    let pawn = PieceType::Pawn(Pawn::new(Colour::White));
    board.execute_move(&play(pawn, (1, 4), (3, 4), false, false));
    assert!(board.is_square_free(&Square::new(1, 4)));
    match board.get_piece(Square::new(3, 4), Some(Colour::White)) {
        Some(PieceType::Pawn(p)) => {
            assert!(!p.first_move);
            assert_eq!(p.colour, Colour::White);
        }
        _ => panic!("a white pawn stands on e4"),
    }
    assert_eq!(board.get_pieces(Colour::White).len(), 16);
    assert_eq!(board.get_pieces(Colour::Black).len(), 16);
    assert!(board.is_consistent());
}

#[test]
fn capture_removes_the_enemy_piece() {
    let rook = PieceType::Rook(Rook::new(Colour::Black));
    let mut board = board_of(
        vec![(Square::new(0, 0), PieceType::Queen(Queen::new(Colour::White)))],
        vec![(Square::new(7, 0), rook)],
    );
    board.execute_move(&play(rook, (7, 0), (0, 0), true, false));
    assert!(board.get_pieces(Colour::White).is_empty());
    assert!(board.is_square_free(&Square::new(7, 0)));
    match board.get_piece(Square::new(0, 0), None) {
        Some(PieceType::Rook(r)) => {
            assert_eq!(r.colour, Colour::Black);
            assert!(!r.first_move);
        }
        _ => panic!("the black rook stands on a1"),
    }
}

#[test]
fn promotion_puts_a_queen_of_the_mover_on_the_target() {
    let pawn = PieceType::Pawn(Pawn::new(Colour::White));
    let mut board = board_of(vec![(Square::new(6, 2), pawn)], vec![]);
    board.execute_move(&play(pawn, (6, 2), (7, 2), false, true));
    match board.get_piece(Square::new(7, 2), Some(Colour::White)) {
        Some(PieceType::Queen(q)) => assert_eq!(q.colour, Colour::White),
        _ => panic!("a white queen stands on c8"),
    }
    assert!(board.is_square_free(&Square::new(6, 2)));
    let black = PieceType::Pawn(Pawn::new(Colour::Black));
    let mut board = board_of(
        vec![(Square::new(0, 1), PieceType::Knight(Knight::new(Colour::White)))],
        vec![(Square::new(1, 0), black)],
    );
    board.execute_move(&play(black, (1, 0), (0, 1), true, true));
    match board.get_piece(Square::new(0, 1), None) {
        Some(PieceType::Queen(q)) => assert_eq!(q.colour, Colour::Black),
        _ => panic!("a black queen stands on b1"),
    }
    assert!(board.get_pieces(Colour::White).is_empty());
}

#[test]
fn move_is_made_as_it_is_told_and_not_judged() {
    let rook = PieceType::Rook(Rook::new(Colour::White));
    let mut board = board_of(
        vec![(Square::new(0, 0), rook)],
        vec![(Square::new(0, 5), PieceType::Knight(Knight::new(Colour::Black)))],
    );
    assert!(board.is_consistent());
    // told not to be a capture, the move leaves the enemy piece where it is
    board.execute_move(&play(rook, (0, 0), (0, 5), false, false));
    assert!(board.get_piece(Square::new(0, 5), Some(Colour::White)).is_some());
    assert!(board.get_piece(Square::new(0, 5), Some(Colour::Black)).is_some());
    assert!(!board.is_consistent());
}

#[test]
fn copy_is_independent_of_the_board() {
    let board = initial_board();
    let mut copy = board.duplicate();
    copy.execute_move(&play(PieceType::Pawn(Pawn::new(Colour::White)), (1, 0), (2, 0), false, false));
    assert!(!board.is_square_free(&Square::new(1, 0)));
    assert!(copy.is_square_free(&Square::new(1, 0)));
    assert_ne!(hash_position(&board, Colour::Black), hash_position(&copy, Colour::Black));
}

#[test]
fn hash_tells_first_moves_and_colours_apart() {
    let fresh = board_of(vec![(Square::new(0, 4), king(Colour::White))], vec![]);
    let mut moved_king = King::new(Colour::White);
    moved_king.set_first_move(false);
    let moved = board_of(vec![(Square::new(0, 4), PieceType::King(moved_king))], vec![]);
    let other_side = board_of(vec![], vec![(Square::new(0, 4), king(Colour::Black))]);
    let again = board_of(vec![(Square::new(0, 4), king(Colour::White))], vec![]);
    assert_ne!(hash_position(&fresh, Colour::White), hash_position(&moved, Colour::White));
    assert_ne!(hash_position(&fresh, Colour::White), hash_position(&other_side, Colour::White));
    assert_eq!(hash_position(&fresh, Colour::White), hash_position(&again, Colour::White));
}

#[test]
fn board_bytes_are_four_for_each_square() {
    let bytes = initial_board().encoding();
    assert_eq!(bytes.len(), 256);
    // a1: a white rook that has not moved
    assert_eq!(bytes[0..4], [0, 0, 19, 0]);
    // b1: a white knight
    assert_eq!(bytes[4..8], [0, 1, 10, 0]);
    // e1: the white king, not moved
    assert_eq!(bytes[16..20], [0, 4, 27, 0]);
    // a2: a white pawn, not moved
    assert_eq!(bytes[32..36], [1, 0, 7, 0]);
    // a3: nothing
    assert_eq!(bytes[64..68], [2, 0, 0, 0]);
    // d8: the black queen
    assert_eq!(bytes[236..240], [7, 3, 0, 20]);
    // h8: a black rook, not moved
    assert_eq!(bytes[252..256], [7, 7, 0, 17]);
}

#[test]
fn king_on_an_open_file_with_a_rook_is_under_check() {
    let board = board_of(
        vec![(Square::new(0, 4), king(Colour::White))],
        vec![
            (Square::new(7, 4), PieceType::Rook(Rook::new(Colour::Black))),
            (Square::new(7, 0), king(Colour::Black)),
        ],
    );
    assert!(board.is_under_check(Colour::White));
    assert!(!board.is_under_check(Colour::Black));
    let shielded = board_of(
        vec![
            (Square::new(0, 4), king(Colour::White)),
            (Square::new(1, 4), PieceType::Pawn(Pawn::new(Colour::White))),
        ],
        vec![
            (Square::new(7, 4), PieceType::Rook(Rook::new(Colour::Black))),
            (Square::new(7, 0), king(Colour::Black)),
        ],
    );
    assert!(!shielded.is_under_check(Colour::White));
}

#[test]
fn pawn_gives_check_only_while_the_king_can_be_taken() {
    // a pawn controls a diagonal square only if an enemy stands there
    let board = board_of(
        vec![(Square::new(3, 3), PieceType::Pawn(Pawn::new(Colour::White)))],
        vec![(Square::new(4, 4), king(Colour::Black))],
    );
    assert!(board.is_under_check(Colour::Black));
    let ahead = board_of(
        vec![(Square::new(3, 3), PieceType::Pawn(Pawn::new(Colour::White)))],
        vec![(Square::new(4, 3), king(Colour::Black))],
    );
    assert!(!ahead.is_under_check(Colour::Black));
}

#[test]
fn move_that_attacks_the_king_gives_check() {
    let rook = PieceType::Rook(Rook::new(Colour::White));
    let board = board_of(
        vec![(Square::new(0, 0), rook), (Square::new(0, 4), king(Colour::White))],
        vec![(Square::new(7, 7), king(Colour::Black))],
    );
    assert!(board.is_check(play(rook, (0, 0), (7, 0), false, false)));
    assert!(!board.is_check(play(rook, (0, 0), (6, 0), false, false)));
    // the board itself is untouched
    assert!(board.get_piece(Square::new(0, 0), Some(Colour::White)).is_some());
}

#[test]
fn material_of_the_first_position_is_even() {
    let board = initial_board();
    assert_eq!(board.evaluate_material(Colour::White), Ratio::new(294, 294));
    assert_eq!(board.evaluate_material(Colour::Black), Ratio::new(294, 294));
}

#[test]
fn lone_king_has_the_kings_material_only() {
    let board = board_of(vec![(Square::new(0, 4), king(Colour::White))], init_black_pieces());
    assert_eq!(board.evaluate_material(Colour::White), Ratio::new(255, 294));
    assert_eq!(board.evaluate_material(Colour::Black), Ratio::new(294, 255));
    let kings = board_of(
        vec![(Square::new(0, 4), king(Colour::White))],
        vec![(Square::new(7, 4), king(Colour::Black))],
    );
    assert_eq!(kings.evaluate_material(Colour::White), Ratio::new(255, 255));
}

#[test]
fn activity_counts_the_squares_under_control() {
    let board = initial_board();
    // each side controls the two ranks in front of its pawns
    assert_eq!(board.evaluate_activity(Colour::White), Ratio::new(16, 16));
    let kings = board_of(
        vec![(Square::new(0, 0), king(Colour::White))],
        vec![(Square::new(4, 4), king(Colour::Black))],
    );
    assert_eq!(kings.evaluate_activity(Colour::White), Ratio::new(3, 8));
    assert_eq!(kings.evaluate_activity(Colour::Black), Ratio::new(8, 3));
}

#[test]
fn activity_with_no_square_under_enemy_control_has_no_denominator() {
    let board = board_of(vec![(Square::new(0, 0), king(Colour::White))], vec![]);
    assert_eq!(board.evaluate_activity(Colour::White), Ratio::new(3, 0));
    assert_eq!(board.evaluate_activity(Colour::Black), Ratio::new(0, 3));
}

#[test]
fn proximity_grows_with_the_way_the_pawns_have_come() {
    assert_eq!(initial_board().evaluate_proximity(Colour::White), Ratio::new(0, 420));
    assert_eq!(initial_board().evaluate_proximity(Colour::Black), Ratio::new(0, 420));
    let board = board_of(
        vec![
            (Square::new(2, 0), PieceType::Pawn(Pawn::new(Colour::White))),
            (Square::new(6, 1), PieceType::Pawn(Pawn::new(Colour::White))),
            (Square::new(5, 5), PieceType::Knight(Knight::new(Colour::White))),
        ],
        vec![
            (Square::new(1, 3), PieceType::Pawn(Pawn::new(Colour::Black))),
            (Square::new(4, 4), PieceType::Pawn(Pawn::new(Colour::Black))),
        ],
    );
    // 1 - 1/2 and 1 - 1/6, in 420ths
    assert_eq!(board.evaluate_proximity(Colour::White), Ratio::new(210 + 350, 420));
    // 1 - 1/6 and 1 - 1/3
    assert_eq!(board.evaluate_proximity(Colour::Black), Ratio::new(350 + 280, 420));
}

#[test]
fn pawn_on_its_home_rank_counts_as_one_step_away() {
    let white = board_of(vec![(Square::new(0, 0), PieceType::Pawn(Pawn::new(Colour::White)))], vec![]);
    assert_eq!(white.evaluate_proximity(Colour::White), Ratio::new(0, 420));
    let black = board_of(vec![], vec![(Square::new(7, 0), PieceType::Pawn(Pawn::new(Colour::Black)))]);
    assert_eq!(black.evaluate_proximity(Colour::Black), Ratio::new(0, 420));
    let far = board_of(vec![(Square::new(7, 0), PieceType::Pawn(Pawn::new(Colour::White)))], vec![]);
    assert_eq!(far.evaluate_proximity(Colour::White), Ratio::new(360, 420));
}

#[test]
fn consistency_wants_each_piece_on_its_own_side() {
    assert!(initial_board().is_consistent());
    let wrong_side = board_of(vec![(Square::new(0, 0), king(Colour::Black))], vec![]);
    assert!(!wrong_side.is_consistent());
    let shared = board_of(
        vec![(Square::new(0, 0), king(Colour::White))],
        vec![(Square::new(0, 0), king(Colour::Black))],
    );
    assert!(!shared.is_consistent());
    assert!(!shared.is_square_free(&Square::new(0, 0)));
    assert_eq!(shared.get_piece(Square::new(0, 0), None).unwrap().get_colour(), Colour::White);
}
