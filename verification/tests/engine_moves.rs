//! Per-piece pseudo-legal move generation on the mailbox board:
//! bishops, knights, rooks, queens and pawns.

use chess_engine::board::Board;
use chess_engine::location::{File, Location, Rank};
use chess_engine::move_generator::base::PieceMovementType;
use chess_engine::move_generator::bishop::BishopMoveGen;
use chess_engine::move_generator::knight::KnightMoveGen;
use chess_engine::move_generator::pawn::PawnMoveGen;
use chess_engine::move_generator::queen::QueenMoveGen;
use chess_engine::move_generator::rock::RookMoveGen;
use chess_engine::pieces::{Piece, PieceType, Side};

fn put(board: &mut Board, loc: Location, piece_type: PieceType, side: Side) {
    board.set(loc, Some(Piece::new(piece_type, side)));
}

#[test]
fn test_bishop_moves_empty_board() {
    let mut board = Board::new();
    let loc = Location::new(File::C, Rank::Three);
    put(&mut board, loc, PieceType::Bishop, Side::White);

    let moves = BishopMoveGen::generate_moves(&board, loc, Side::White);

    assert!(moves.contains(&PieceMovementType::Relocate(Location::new(File::A, Rank::One))));
    assert!(moves.contains(&PieceMovementType::Relocate(Location::new(File::B, Rank::Two))));
    assert!(moves.contains(&PieceMovementType::Relocate(Location::new(File::D, Rank::Four))));
    assert!(moves.contains(&PieceMovementType::Relocate(Location::new(File::E, Rank::Five))));
    assert!(moves.contains(&PieceMovementType::Relocate(Location::new(File::F, Rank::Six))));
    assert!(moves.contains(&PieceMovementType::Relocate(Location::new(File::G, Rank::Seven))));
    assert!(moves.contains(&PieceMovementType::Relocate(Location::new(File::H, Rank::Eight))));

    assert!(moves.contains(&PieceMovementType::Relocate(Location::new(File::A, Rank::Five))));
    assert!(moves.contains(&PieceMovementType::Relocate(Location::new(File::B, Rank::Four))));
    assert!(moves.contains(&PieceMovementType::Relocate(Location::new(File::D, Rank::Two))));
    assert!(moves.contains(&PieceMovementType::Relocate(Location::new(File::E, Rank::One))));
    assert_eq!(moves.len(), 11);
}

#[test]
fn test_bishop_at_edge_of_board() {
    let mut board = Board::new();
    let loc = Location::new(File::A, Rank::One);
    put(&mut board, loc, PieceType::Bishop, Side::White);

    let moves = BishopMoveGen::generate_moves(&board, loc, Side::White);

    assert!(moves.contains(&PieceMovementType::Relocate(Location::new(File::B, Rank::Two))));
    assert!(moves.contains(&PieceMovementType::Relocate(Location::new(File::C, Rank::Three))));
    assert!(moves.contains(&PieceMovementType::Relocate(Location::new(File::D, Rank::Four))));
    assert!(moves.contains(&PieceMovementType::Relocate(Location::new(File::E, Rank::Five))));
    assert!(moves.contains(&PieceMovementType::Relocate(Location::new(File::F, Rank::Six))));
    assert!(moves.contains(&PieceMovementType::Relocate(Location::new(File::G, Rank::Seven))));
    assert!(moves.contains(&PieceMovementType::Relocate(Location::new(File::H, Rank::Eight))));
    assert_eq!(moves.len(), 7);
}

#[test]
fn test_bishop_moves_with_obstacles_no_capture() {
    let mut board = Board::new();
    let loc = Location::new(File::C, Rank::Three);
    put(&mut board, loc, PieceType::Bishop, Side::White);

    put(&mut board, Location::new(File::B, Rank::Two), PieceType::Pawn, Side::White);

    let moves = BishopMoveGen::generate_moves(&board, loc, Side::White);

    assert!(moves.contains(&PieceMovementType::Relocate(Location::new(File::D, Rank::Four))));
    assert!(moves.contains(&PieceMovementType::Relocate(Location::new(File::E, Rank::Five))));
    assert!(moves.contains(&PieceMovementType::Relocate(Location::new(File::F, Rank::Six))));
    assert!(moves.contains(&PieceMovementType::Relocate(Location::new(File::G, Rank::Seven))));
    assert!(moves.contains(&PieceMovementType::Relocate(Location::new(File::H, Rank::Eight))));

    assert!(moves.contains(&PieceMovementType::Relocate(Location::new(File::A, Rank::Five))));
    assert!(moves.contains(&PieceMovementType::Relocate(Location::new(File::B, Rank::Four))));
    assert!(moves.contains(&PieceMovementType::Relocate(Location::new(File::D, Rank::Two))));
    assert!(moves.contains(&PieceMovementType::Relocate(Location::new(File::E, Rank::One))));
    assert_eq!(moves.len(), 9);
}

#[test]
fn test_bishop_moves_with_obstacles_with_capture() {
    let mut board = Board::new();
    let loc = Location::new(File::C, Rank::Three);
    put(&mut board, loc, PieceType::Bishop, Side::White);

    put(&mut board, Location::new(File::B, Rank::Two), PieceType::Pawn, Side::Black);

    let moves = BishopMoveGen::generate_moves(&board, loc, Side::White);

    assert!(moves.contains(&PieceMovementType::Relocate(Location::new(File::D, Rank::Four))));
    assert!(moves.contains(&PieceMovementType::Relocate(Location::new(File::E, Rank::Five))));
    assert!(moves.contains(&PieceMovementType::Relocate(Location::new(File::F, Rank::Six))));
    assert!(moves.contains(&PieceMovementType::Relocate(Location::new(File::G, Rank::Seven))));
    assert!(moves.contains(&PieceMovementType::Relocate(Location::new(File::H, Rank::Eight))));

    assert!(moves.contains(&PieceMovementType::Relocate(Location::new(File::A, Rank::Five))));
    assert!(moves.contains(&PieceMovementType::Relocate(Location::new(File::B, Rank::Four))));
    assert!(moves.contains(&PieceMovementType::Relocate(Location::new(File::D, Rank::Two))));
    assert!(moves.contains(&PieceMovementType::Relocate(Location::new(File::E, Rank::One))));
    assert!(moves.contains(&PieceMovementType::Capture(Location::new(File::B, Rank::Two))));

    assert_eq!(moves.len(), 10);
}

#[test]
fn test_bishop_closed_by_all_sides() {
    let mut board = Board::new();
    let loc = Location::new(File::B, Rank::Two);
    put(&mut board, loc, PieceType::Bishop, Side::White);
    put(&mut board, Location::new(File::A, Rank::One), PieceType::Pawn, Side::White);
    put(&mut board, Location::new(File::A, Rank::Three), PieceType::Pawn, Side::White);
    put(&mut board, Location::new(File::C, Rank::Three), PieceType::Pawn, Side::White);
    put(&mut board, Location::new(File::C, Rank::One), PieceType::Pawn, Side::White);

    let moves = BishopMoveGen::generate_moves(&board, loc, Side::White);

    assert_eq!(moves.len(), 0);
}

#[test]
fn test_bishop_moves_empty_board_bitboard() {
    let mut board = Board::new();
    let loc = Location::new(File::C, Rank::Three);
    put(&mut board, loc, PieceType::Bishop, Side::White);

    let bitboard = BishopMoveGen::generate_moves_bitboard(&board, loc, Side::White);

    let expected_locations = [
        Location::new(File::A, Rank::One),
        Location::new(File::B, Rank::Two),
        Location::new(File::D, Rank::Four),
        Location::new(File::E, Rank::Five),
        Location::new(File::F, Rank::Six),
        Location::new(File::G, Rank::Seven),
        Location::new(File::H, Rank::Eight),
        Location::new(File::A, Rank::Five),
        Location::new(File::B, Rank::Four),
        Location::new(File::D, Rank::Two),
        Location::new(File::E, Rank::One),
    ];

    let expected_bitboard =
        expected_locations.iter().fold(0u64, |bb, loc| bb | (1 << loc.to_bit_index()));

    assert_eq!(bitboard, expected_bitboard);
}

#[test]
fn test_bishop_moves_with_obstacles_bitboard() {
    let mut board = Board::new();
    let loc = Location::new(File::C, Rank::Three);
    put(&mut board, loc, PieceType::Bishop, Side::White);

    put(&mut board, Location::new(File::B, Rank::Two), PieceType::Pawn, Side::Black);
    put(&mut board, Location::new(File::E, Rank::Five), PieceType::Pawn, Side::White);

    let bitboard = BishopMoveGen::generate_moves_bitboard(&board, loc, Side::White);

    let expected_locations = [
        Location::new(File::B, Rank::Two),
        Location::new(File::D, Rank::Four),
        Location::new(File::D, Rank::Two),
        Location::new(File::E, Rank::One),
        Location::new(File::B, Rank::Four),
        Location::new(File::A, Rank::Five),
    ];

    let expected_bitboard =
        expected_locations.iter().fold(0u64, |bb, loc| bb | (1 << loc.to_bit_index()));

    assert_eq!(bitboard, expected_bitboard);
}

#[test]
fn test_bishop_moves_with_full_block_bitboard() {
    let mut board = Board::new();
    let loc = Location::new(File::C, Rank::Three);
    put(&mut board, loc, PieceType::Bishop, Side::White);

    put(&mut board, Location::new(File::B, Rank::Two), PieceType::Pawn, Side::White);
    put(&mut board, Location::new(File::D, Rank::Four), PieceType::Pawn, Side::White);
    put(&mut board, Location::new(File::B, Rank::Four), PieceType::Pawn, Side::White);
    put(&mut board, Location::new(File::D, Rank::Two), PieceType::Pawn, Side::White);

    let bitboard = BishopMoveGen::generate_moves_bitboard(&board, loc, Side::White);

    assert_eq!(bitboard, 0);
}

#[test]
fn test_bishop_moves_with_captures_bitboard() {
    let mut board = Board::new();
    let loc = Location::new(File::C, Rank::Three);
    put(&mut board, loc, PieceType::Bishop, Side::White);

    put(&mut board, Location::new(File::B, Rank::Two), PieceType::Pawn, Side::Black);
    put(&mut board, Location::new(File::D, Rank::Four), PieceType::Pawn, Side::Black);

    let bitboard = BishopMoveGen::generate_moves_bitboard(&board, loc, Side::White);

    let expected_locations = [
        Location::new(File::B, Rank::Two),
        Location::new(File::D, Rank::Four),
        Location::new(File::D, Rank::Two),
        Location::new(File::E, Rank::One),
        Location::new(File::B, Rank::Four),
        Location::new(File::A, Rank::Five),
    ];

    let expected_bitboard =
        expected_locations.iter().fold(0u64, |bb, loc| bb | (1 << loc.to_bit_index()));

    assert_eq!(bitboard, expected_bitboard);
}

#[test]
fn test_knight_moves_empty_board() {
    let mut board = Board::new();
    let loc = Location::new(File::D, Rank::Four);
    put(&mut board, loc, PieceType::Knight, Side::White);

    let moves = KnightMoveGen::generate_moves(&board, loc, Side::White);

    let expected_moves = [
        Location::new(File::B, Rank::Three),
        Location::new(File::B, Rank::Five),
        Location::new(File::C, Rank::Two),
        Location::new(File::C, Rank::Six),
        Location::new(File::E, Rank::Two),
        Location::new(File::E, Rank::Six),
        Location::new(File::F, Rank::Three),
        Location::new(File::F, Rank::Five),
    ];

    assert!(expected_moves.iter().all(|&loc| moves.contains(&PieceMovementType::Relocate(loc))));
    assert_eq!(moves.len(), expected_moves.len());
}

#[test]
fn test_knight_moves_with_same_color_obstacles() {
    let mut board = Board::new();
    let loc = Location::new(File::D, Rank::Four);
    put(&mut board, loc, PieceType::Knight, Side::White);

    put(&mut board, Location::new(File::B, Rank::Three), PieceType::Pawn, Side::White);
    put(&mut board, Location::new(File::E, Rank::Six), PieceType::Pawn, Side::White);

    let moves = KnightMoveGen::generate_moves(&board, loc, Side::White);

    let expected_moves = [
        Location::new(File::B, Rank::Five),
        Location::new(File::C, Rank::Two),
        Location::new(File::C, Rank::Six),
        Location::new(File::E, Rank::Two),
        Location::new(File::F, Rank::Three),
        Location::new(File::F, Rank::Five),
    ];

    assert!(expected_moves.iter().all(|&loc| moves.contains(&PieceMovementType::Relocate(loc))));
    assert!(!moves.contains(&PieceMovementType::Relocate(Location::new(File::B, Rank::Three))));
    assert!(!moves.contains(&PieceMovementType::Relocate(Location::new(File::E, Rank::Six))));
    assert_eq!(moves.len(), expected_moves.len());
}

#[test]
fn test_knight_moves_with_opposite_color_obstacles() {
    let mut board = Board::new();
    let loc = Location::new(File::D, Rank::Four);
    put(&mut board, loc, PieceType::Knight, Side::White);

    put(&mut board, Location::new(File::B, Rank::Three), PieceType::Pawn, Side::Black);
    put(&mut board, Location::new(File::E, Rank::Six), PieceType::Pawn, Side::Black);

    let moves = KnightMoveGen::generate_moves(&board, loc, Side::White);

    let expected_moves = [
        Location::new(File::B, Rank::Five),
        Location::new(File::C, Rank::Two),
        Location::new(File::C, Rank::Six),
        Location::new(File::E, Rank::Two),
        Location::new(File::F, Rank::Three),
        Location::new(File::F, Rank::Five),
    ];

    assert!(expected_moves.iter().all(|&loc| moves.contains(&PieceMovementType::Relocate(loc))));
    assert!(moves.contains(&PieceMovementType::Capture(Location::new(File::B, Rank::Three))));
    assert!(moves.contains(&PieceMovementType::Capture(Location::new(File::E, Rank::Six))));
    assert_eq!(moves.len(), expected_moves.len() + 2);
}

#[test]
fn test_knight_moves_at_board_edge() {
    let mut board = Board::new();
    let loc = Location::new(File::A, Rank::One);
    put(&mut board, loc, PieceType::Knight, Side::White);

    let moves = KnightMoveGen::generate_moves(&board, loc, Side::White);

    let expected_moves = [
        Location::new(File::B, Rank::Three),
        Location::new(File::C, Rank::Two),
    ];

    assert!(expected_moves.iter().all(|&loc| moves.contains(&PieceMovementType::Relocate(loc))));
    assert_eq!(moves.len(), expected_moves.len());
}

#[test]
fn test_rook_moves_empty_board() {
    let mut board = Board::new();
    let loc = Location::new(File::D, Rank::Four);
    put(&mut board, loc, PieceType::Rook, Side::White);

    let moves = RookMoveGen::generate_moves(&board, loc, Side::White);

    let vertical_movements = [
        Location::new(File::D, Rank::One),
        Location::new(File::D, Rank::Two),
        Location::new(File::D, Rank::Three),
        Location::new(File::D, Rank::Five),
        Location::new(File::D, Rank::Six),
        Location::new(File::D, Rank::Seven),
        Location::new(File::D, Rank::Eight),
    ];
    assert!(vertical_movements.iter().all(|&loc| moves.contains(&PieceMovementType::Relocate(loc))));

    let horizontal_movements = [
        Location::new(File::A, Rank::Four),
        Location::new(File::B, Rank::Four),
        Location::new(File::C, Rank::Four),
        Location::new(File::E, Rank::Four),
        Location::new(File::F, Rank::Four),
        Location::new(File::G, Rank::Four),
        Location::new(File::H, Rank::Four),
    ];
    assert!(horizontal_movements.iter().all(|&loc| moves.contains(&PieceMovementType::Relocate(loc))));

    assert_eq!(moves.len(), vertical_movements.len() + horizontal_movements.len());
}

#[test]
fn test_rook_moves_with_same_color_obstacles() {
    let mut board = Board::new();
    let loc = Location::new(File::D, Rank::Four);
    put(&mut board, loc, PieceType::Rook, Side::White);

    put(&mut board, Location::new(File::D, Rank::Six), PieceType::Pawn, Side::White);
    put(&mut board, Location::new(File::B, Rank::Four), PieceType::Pawn, Side::White);

    let moves = RookMoveGen::generate_moves(&board, loc, Side::White);

    let vertical_movements = [
        Location::new(File::D, Rank::One),
        Location::new(File::D, Rank::Two),
        Location::new(File::D, Rank::Three),
        Location::new(File::D, Rank::Five),
    ];
    assert!(vertical_movements.iter().all(|&loc| moves.contains(&PieceMovementType::Relocate(loc))));
    assert!(!moves.contains(&PieceMovementType::Relocate(Location::new(File::D, Rank::Six))));

    let horizontal_movements = [Location::new(File::C, Rank::Four)];
    assert!(horizontal_movements.iter().all(|&loc| moves.contains(&PieceMovementType::Relocate(loc))));
    assert!(!moves.contains(&PieceMovementType::Relocate(Location::new(File::B, Rank::Four))));
}

#[test]
fn test_rook_moves_with_opposite_color_obstacles() {
    let mut board = Board::new();
    let loc = Location::new(File::D, Rank::Four);
    put(&mut board, loc, PieceType::Rook, Side::White);

    put(&mut board, Location::new(File::D, Rank::Six), PieceType::Pawn, Side::Black);
    put(&mut board, Location::new(File::B, Rank::Four), PieceType::Pawn, Side::Black);

    let moves = RookMoveGen::generate_moves(&board, loc, Side::White);

    let vertical_movements = [
        Location::new(File::D, Rank::One),
        Location::new(File::D, Rank::Two),
        Location::new(File::D, Rank::Three),
        Location::new(File::D, Rank::Five),
    ];
    assert!(vertical_movements.iter().all(|&loc| moves.contains(&PieceMovementType::Relocate(loc))));
    assert!(moves.contains(&PieceMovementType::Capture(Location::new(File::D, Rank::Six))));
    assert!(!moves.contains(&PieceMovementType::Relocate(Location::new(File::D, Rank::Seven))));

    let horizontal_movements = [Location::new(File::C, Rank::Four)];
    assert!(horizontal_movements.iter().all(|&loc| moves.contains(&PieceMovementType::Relocate(loc))));
    assert!(moves.contains(&PieceMovementType::Capture(Location::new(File::B, Rank::Four))));
    assert!(!moves.contains(&PieceMovementType::Relocate(Location::new(File::A, Rank::Four))));
}

#[test]
fn test_queen_moves_empty_board() {
    let mut board = Board::new();
    let loc = Location::new(File::D, Rank::Four);
    put(&mut board, loc, PieceType::Queen, Side::White);

    let moves = QueenMoveGen::generate_moves(&board, loc, Side::White);

    let horizontal_movements = [
        Location::new(File::D, Rank::One),
        Location::new(File::D, Rank::Two),
        Location::new(File::D, Rank::Three),
        Location::new(File::D, Rank::Five),
        Location::new(File::D, Rank::Six),
        Location::new(File::D, Rank::Seven),
        Location::new(File::D, Rank::Eight),
    ];
    assert!(horizontal_movements.iter().all(|&loc| moves.contains(&PieceMovementType::Relocate(loc))));

    let vertical_movements = [
        Location::new(File::A, Rank::Four),
        Location::new(File::B, Rank::Four),
        Location::new(File::C, Rank::Four),
        Location::new(File::E, Rank::Four),
        Location::new(File::F, Rank::Four),
        Location::new(File::G, Rank::Four),
        Location::new(File::H, Rank::Four),
    ];
    assert!(vertical_movements.iter().all(|&loc| moves.contains(&PieceMovementType::Relocate(loc))));

    let diagonal_movements = [
        Location::new(File::A, Rank::One),
        Location::new(File::B, Rank::Two),
        Location::new(File::C, Rank::Three),
        Location::new(File::E, Rank::Five),
        Location::new(File::F, Rank::Six),
        Location::new(File::G, Rank::Seven),
        Location::new(File::H, Rank::Eight),
        Location::new(File::A, Rank::Seven),
        Location::new(File::B, Rank::Six),
        Location::new(File::C, Rank::Five),
        Location::new(File::E, Rank::Three),
        Location::new(File::F, Rank::Two),
        Location::new(File::G, Rank::One),
    ];
    assert!(diagonal_movements.iter().all(|&loc| moves.contains(&PieceMovementType::Relocate(loc))));
}

#[test]
fn test_queen_moves_with_same_color_obstacles() {
    let mut board = Board::new();
    let loc = Location::new(File::D, Rank::Four);
    put(&mut board, loc, PieceType::Queen, Side::Black);

    put(&mut board, Location::new(File::D, Rank::Six), PieceType::Pawn, Side::White);
    put(&mut board, Location::new(File::B, Rank::Four), PieceType::Pawn, Side::White);
    put(&mut board, Location::new(File::E, Rank::Five), PieceType::Pawn, Side::White);

    let moves = QueenMoveGen::generate_moves(&board, loc, Side::White);

    let vertical_movements = [
        Location::new(File::D, Rank::One),
        Location::new(File::D, Rank::Two),
        Location::new(File::D, Rank::Three),
        Location::new(File::D, Rank::Five),
    ];
    assert!(vertical_movements.iter().all(|&loc| moves.contains(&PieceMovementType::Relocate(loc))));
    assert!(!moves.contains(&PieceMovementType::Relocate(Location::new(File::D, Rank::Six))));

    let horizontal_movements = [
        Location::new(File::C, Rank::Four),
        Location::new(File::E, Rank::Four),
        Location::new(File::F, Rank::Four),
        Location::new(File::G, Rank::Four),
        Location::new(File::H, Rank::Four),
    ];
    assert!(horizontal_movements.iter().all(|&loc| moves.contains(&PieceMovementType::Relocate(loc))));
    assert!(!moves.contains(&PieceMovementType::Relocate(Location::new(File::B, Rank::Four))));

    let diagonal_movements = [
        Location::new(File::A, Rank::One),
        Location::new(File::B, Rank::Two),
        Location::new(File::C, Rank::Three),
        Location::new(File::C, Rank::Five),
        Location::new(File::A, Rank::Seven),
        Location::new(File::B, Rank::Six),
        Location::new(File::E, Rank::Three),
        Location::new(File::F, Rank::Two),
        Location::new(File::G, Rank::One),
    ];
    assert!(diagonal_movements.iter().all(|&loc| moves.contains(&PieceMovementType::Relocate(loc))));
    assert!(!moves.contains(&PieceMovementType::Relocate(Location::new(File::E, Rank::Five))));
    assert_eq!(
        moves.len(),
        diagonal_movements.len() + horizontal_movements.len() + vertical_movements.len()
    );
}

#[test]
fn test_queen_moves_with_opposite_color_obstacles() {
    let mut board = Board::new();
    let loc = Location::new(File::D, Rank::Four);
    put(&mut board, loc, PieceType::Queen, Side::Black);

    put(&mut board, Location::new(File::D, Rank::Six), PieceType::Pawn, Side::White);
    put(&mut board, Location::new(File::B, Rank::Four), PieceType::Pawn, Side::White);
    put(&mut board, Location::new(File::E, Rank::Five), PieceType::Pawn, Side::White);

    let moves = QueenMoveGen::generate_moves(&board, loc, Side::Black);

    let vertical_movements = [
        Location::new(File::D, Rank::One),
        Location::new(File::D, Rank::Two),
        Location::new(File::D, Rank::Three),
        Location::new(File::D, Rank::Five),
    ];
    assert!(vertical_movements.iter().all(|&loc| moves.contains(&PieceMovementType::Relocate(loc))));
    assert!(!moves.contains(&PieceMovementType::Relocate(Location::new(File::D, Rank::Six))));

    let diagonal_movements = [
        Location::new(File::A, Rank::One),
        Location::new(File::B, Rank::Two),
        Location::new(File::C, Rank::Three),
        Location::new(File::C, Rank::Five),
        Location::new(File::A, Rank::Seven),
        Location::new(File::B, Rank::Six),
        Location::new(File::E, Rank::Three),
        Location::new(File::F, Rank::Two),
        Location::new(File::G, Rank::One),
    ];
    assert!(diagonal_movements.iter().all(|&loc| moves.contains(&PieceMovementType::Relocate(loc))));
    assert!(!moves.contains(&PieceMovementType::Relocate(Location::new(File::E, Rank::Five))));

    let capture_loc = [
        Location::new(File::D, Rank::Six),
        Location::new(File::B, Rank::Four),
        Location::new(File::E, Rank::Five),
    ];
    assert!(capture_loc.iter().all(|&loc| moves.contains(&PieceMovementType::Capture(loc))));
}

#[test]
fn test_pawn_moves_white_start() {
    let mut board = Board::new();
    let loc = Location::new(File::E, Rank::Two);
    put(&mut board, loc, PieceType::Pawn, Side::White);

    let moves = PawnMoveGen::generate_moves(&board, loc, Side::White);

    assert!(moves.contains(&PieceMovementType::Relocate(Location::new(File::E, Rank::Three))));
    assert!(moves.contains(&PieceMovementType::Relocate(Location::new(File::E, Rank::Four))));
    assert_eq!(moves.len(), 2);
}

#[test]
fn test_pawn_moves_black_start() {
    let mut board = Board::new();
    let loc = Location::new(File::E, Rank::Seven);
    put(&mut board, loc, PieceType::Pawn, Side::Black);

    let moves = PawnMoveGen::generate_moves(&board, loc, Side::Black);

    assert!(moves.contains(&PieceMovementType::Relocate(Location::new(File::E, Rank::Six))));
    assert!(moves.contains(&PieceMovementType::Relocate(Location::new(File::E, Rank::Five))));
    assert_eq!(moves.len(), 2);
}

#[test]
fn test_pawn_blocked_moves() {
    let mut board = Board::new();
    let loc = Location::new(File::E, Rank::Two);
    put(&mut board, loc, PieceType::Pawn, Side::White);
    put(&mut board, Location::new(File::E, Rank::Three), PieceType::Pawn, Side::Black);

    let moves = PawnMoveGen::generate_moves(&board, loc, Side::White);

    assert!(moves.is_empty());
}

#[test]
fn test_pawn_capture_moves() {
    let mut board = Board::new();
    let loc = Location::new(File::E, Rank::Two);
    put(&mut board, loc, PieceType::Pawn, Side::White);

    let left_capture_loc = Location::new(File::D, Rank::Three);
    let right_capture_loc = Location::new(File::F, Rank::Three);
    put(&mut board, left_capture_loc, PieceType::Pawn, Side::Black);
    put(&mut board, right_capture_loc, PieceType::Pawn, Side::Black);

    let moves = PawnMoveGen::generate_moves(&board, loc, Side::White);

    assert!(moves.contains(&PieceMovementType::Capture(left_capture_loc)));
    assert!(moves.contains(&PieceMovementType::Capture(right_capture_loc)));
    assert!(moves.contains(&PieceMovementType::Relocate(Location::new(File::E, Rank::Three))));
    assert!(moves.contains(&PieceMovementType::Relocate(Location::new(File::E, Rank::Four))));
    assert_eq!(moves.len(), 4);
}

#[test]
fn test_pawn_no_capture_same_side() {
    let mut board = Board::new();
    let loc = Location::new(File::E, Rank::Two);
    put(&mut board, loc, PieceType::Pawn, Side::White);

    let left_block_loc = Location::new(File::D, Rank::Three);
    let right_block_loc = Location::new(File::F, Rank::Three);
    put(&mut board, left_block_loc, PieceType::Pawn, Side::White);
    put(&mut board, right_block_loc, PieceType::Pawn, Side::White);

    let moves = PawnMoveGen::generate_moves(&board, loc, Side::White);

    assert!(moves.contains(&PieceMovementType::Relocate(Location::new(File::E, Rank::Three))));
    assert!(moves.contains(&PieceMovementType::Relocate(Location::new(File::E, Rank::Four))));
    assert!(!moves.contains(&PieceMovementType::Capture(left_block_loc)));
    assert!(!moves.contains(&PieceMovementType::Capture(right_block_loc)));
    assert_eq!(moves.len(), 2);
}

#[test]
fn test_pawn_promotion_white() {
    let mut board = Board::new();
    let loc = Location::new(File::E, Rank::Seven);
    put(&mut board, loc, PieceType::Pawn, Side::White);

    let moves = PawnMoveGen::generate_moves(&board, loc, Side::White);

    assert!(moves.contains(&PieceMovementType::Promotion(Location::new(File::E, Rank::Eight))));
    assert_eq!(moves.len(), 1);
}

#[test]
fn test_pawn_promotion_black() {
    let mut board = Board::new();
    let loc = Location::new(File::E, Rank::Two);
    put(&mut board, loc, PieceType::Pawn, Side::Black);

    let moves = PawnMoveGen::generate_moves(&board, loc, Side::Black);

    assert!(moves.contains(&PieceMovementType::Promotion(Location::new(File::E, Rank::One))));
    assert_eq!(moves.len(), 1);
}

#[test]
fn test_pawn_promotion_with_capture() {
    let mut board = Board::new();
    let loc = Location::new(File::E, Rank::Seven);
    put(&mut board, loc, PieceType::Pawn, Side::White);

    let left_capture_loc = Location::new(File::D, Rank::Eight);
    let right_capture_loc = Location::new(File::F, Rank::Eight);
    put(&mut board, left_capture_loc, PieceType::Pawn, Side::Black);
    put(&mut board, right_capture_loc, PieceType::Pawn, Side::Black);

    let moves = PawnMoveGen::generate_moves(&board, loc, Side::White);

    assert!(moves.contains(&PieceMovementType::Promotion(Location::new(File::E, Rank::Eight))));
    assert!(moves.contains(&PieceMovementType::Promotion(left_capture_loc)));
    assert!(moves.contains(&PieceMovementType::Promotion(right_capture_loc)));
    assert_eq!(moves.len(), 3);
}
