use chess_engine::model::board::board::Board;
use chess_engine::model::board::square::Square;
use chess_engine::model::piece::color::Colour;
use chess_engine::model::piece::king::King;
use chess_engine::model::piece::knight::Knight;
use chess_engine::model::piece::pawn::Pawn;
use chess_engine::model::piece::piece::{Piece, PieceType};
use chess_engine::model::piece::queen::Queen;
use chess_engine::model::piece::rook::Rook;
use chess_engine::utils::{
    hash_position, init_black_pieces, init_squares, init_white_pieces, normalize_file,
    normalize_rank,
};

fn initial_board() -> Board {
    Board::new(init_squares(), init_white_pieces(), init_black_pieces())
}

#[test]
fn colour_opposites() {
    assert_eq!(Colour::White.get_opposite(), Colour::Black);
    assert_eq!(Colour::Black.get_opposite(), Colour::White);
    assert!(Colour::White.is_same(&Colour::White));
    assert!(!Colour::White.is_same(&Colour::Black));
    assert!(Colour::White.is_opposite(&Colour::Black));
    assert!(!Colour::Black.is_opposite(&Colour::Black));
    assert_eq!(Colour::White.name(), "white");
    assert_eq!(Colour::Black.name(), "black");
}

#[test]
fn square_keeps_its_coordinates() {
    let square = Square::new(3, 5);
    assert_eq!(square.get_rank(), 3);
    assert_eq!(square.get_file(), 5);
    assert_eq!(square, Square::new(3, 5));
    assert_ne!(square, Square::new(5, 3));
}

#[test]
fn ranks_and_files_as_players_name_them() {
    assert_eq!(normalize_rank(0), 1);
    assert_eq!(normalize_rank(7), 8);
    assert_eq!(normalize_file(0), 'a');
    assert_eq!(normalize_file(4), 'e');
    assert_eq!(normalize_file(7), 'h');
}

#[test]
fn grid_is_rank_major() {
    let grid = init_squares();
    for rank in 0..8u8 {
        for file in 0..8u8 {
            assert_eq!(grid[rank as usize][file as usize], Square::new(rank, file));
        }
    }
}

#[test]
fn piece_values_and_symbols() {
    assert_eq!(Pawn::new(Colour::White).get_value(), 1);
    assert_eq!(Knight::new(Colour::White).get_value(), 3);
    assert_eq!(Rook::new(Colour::Black).get_value(), 5);
    assert_eq!(Queen::new(Colour::Black).get_value(), 9);
    assert_eq!(King::new(Colour::Black).get_value(), u8::MAX);
    assert_eq!(Pawn::new(Colour::White).get_symbol(), 'P');
    assert_eq!(King::new(Colour::White).get_symbol(), 'K');
    assert_eq!(PieceType::Queen(Queen::new(Colour::White)).get_symbol(), 'Q');
}

#[test]
fn piece_equality_ignores_colour() {
    let white = PieceType::Pawn(Pawn::new(Colour::White));
    let black = PieceType::Pawn(Pawn::new(Colour::Black));
    let knight = PieceType::Knight(Knight::new(Colour::White));
    assert!(white == black);
    assert!(white != knight);
}

#[test]
fn initial_board_has_thirty_two_pieces() {
    let board = initial_board();
    assert_eq!(board.get_pieces(Colour::White).len(), 16);
    assert_eq!(board.get_pieces(Colour::Black).len(), 16);
    assert_eq!(board.get_squares().len(), 64);
    assert!(board.is_square_free(&Square::new(3, 3)));
    assert!(!board.is_square_free(&Square::new(0, 4)));
    let king = board.get_piece(Square::new(0, 4), Some(Colour::White)).unwrap();
    assert_eq!(king.get_symbol(), 'K');
    assert!(board.get_piece(Square::new(0, 4), Some(Colour::Black)).is_none());
    assert_eq!(board.get_piece(Square::new(7, 3), None).unwrap().get_symbol(), 'Q');
}

#[test]
fn out_of_range_square_is_absent() {
    let board = initial_board();
    assert!(board.get_square(8, 0).is_none());
    assert!(board.get_square(0, -1).is_none());
    assert_eq!(board.get_square(7, 7), Some(&Square::new(7, 7)));
    assert!(board.get_piece(Square::new(9, 9), None).is_none());
}

#[test]
fn clone_then_hash_gives_the_same_hash() {
    let board = initial_board();
    let copy = board.duplicate();
    assert_eq!(hash_position(&board, Colour::White), hash_position(&copy, Colour::White));
    assert_ne!(hash_position(&board, Colour::White), hash_position(&board, Colour::Black));
}
