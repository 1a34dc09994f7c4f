//! King move generation, castling eligibility, and check detection by
//! the reverse-attack technique, on the mailbox board.

use chess_engine::board::Board;
use chess_engine::location::{File, Location, Rank};
use chess_engine::move_generator::base::PieceMovementType;
use chess_engine::move_generator::king::KingMoveGen;
use chess_engine::pieces::{Piece, PieceType, Side};

fn put(board: &mut Board, loc: Location, piece_type: PieceType, side: Side) {
    board.set(loc, Some(Piece::new(piece_type, side)));
}

#[test]
fn test_king_moves_empty_board() {
    let mut board = Board::new();
    let loc = Location::new(File::D, Rank::Four);
    put(&mut board, loc, PieceType::King, Side::White);

    let moves = KingMoveGen::generate_moves(&board, loc, Side::White);

    let expected_moves = [
        Location::new(File::C, Rank::Three),
        Location::new(File::C, Rank::Four),
        Location::new(File::C, Rank::Five),
        Location::new(File::D, Rank::Three),
        Location::new(File::D, Rank::Five),
        Location::new(File::E, Rank::Three),
        Location::new(File::E, Rank::Four),
        Location::new(File::E, Rank::Five),
    ];

    assert!(expected_moves.iter().all(|&loc| moves.contains(&PieceMovementType::Relocate(loc))));
    assert_eq!(moves.len(), expected_moves.len());
}

#[test]
fn test_king_moves_with_same_color_obstacles() {
    let mut board = Board::new();
    let loc = Location::new(File::D, Rank::Four);
    put(&mut board, loc, PieceType::King, Side::White);

    put(&mut board, Location::new(File::C, Rank::Three), PieceType::Pawn, Side::White);
    put(&mut board, Location::new(File::E, Rank::Five), PieceType::Pawn, Side::White);

    let moves = KingMoveGen::generate_moves(&board, loc, Side::White);

    let expected_moves = [
        Location::new(File::C, Rank::Four),
        Location::new(File::C, Rank::Five),
        Location::new(File::D, Rank::Three),
        Location::new(File::D, Rank::Five),
        Location::new(File::E, Rank::Three),
        Location::new(File::E, Rank::Four),
    ];

    assert!(expected_moves.iter().all(|&loc| moves.contains(&PieceMovementType::Relocate(loc))));
    assert!(!moves.contains(&PieceMovementType::Relocate(Location::new(File::C, Rank::Three))));
    assert!(!moves.contains(&PieceMovementType::Relocate(Location::new(File::E, Rank::Five))));
    assert_eq!(moves.len(), expected_moves.len());
}

#[test]
fn test_king_moves_with_opposite_color_obstacles() {
    let mut board = Board::new();
    let loc = Location::new(File::D, Rank::Four);
    put(&mut board, loc, PieceType::King, Side::White);

    put(&mut board, Location::new(File::C, Rank::Three), PieceType::Pawn, Side::Black);
    put(&mut board, Location::new(File::E, Rank::Five), PieceType::Pawn, Side::Black);

    let moves = KingMoveGen::generate_moves(&board, loc, Side::White);

    let expected_moves = [
        Location::new(File::C, Rank::Four),
        Location::new(File::C, Rank::Five),
        Location::new(File::D, Rank::Three),
        Location::new(File::D, Rank::Five),
        Location::new(File::E, Rank::Three),
        Location::new(File::E, Rank::Four),
    ];

    assert!(expected_moves.iter().all(|&loc| moves.contains(&PieceMovementType::Relocate(loc))));
    assert!(moves.contains(&PieceMovementType::Capture(Location::new(File::C, Rank::Three))));
    assert!(moves.contains(&PieceMovementType::Capture(Location::new(File::E, Rank::Five))));
    assert_eq!(moves.len(), expected_moves.len() + 2);
}

#[test]
fn test_king_moves_at_board_edge() {
    let mut board = Board::new();
    let loc = Location::new(File::A, Rank::One);
    put(&mut board, loc, PieceType::King, Side::White);

    let moves = KingMoveGen::generate_moves(&board, loc, Side::White);

    let expected_moves = [
        Location::new(File::A, Rank::Two),
        Location::new(File::B, Rank::One),
        Location::new(File::B, Rank::Two),
    ];

    assert!(expected_moves.iter().all(|&loc| moves.contains(&PieceMovementType::Relocate(loc))));
    assert_eq!(moves.len(), expected_moves.len());
}

#[test]
fn test_king_not_in_check_empty_board() {
    let mut board = Board::new();
    let king_loc = Location::new(File::D, Rank::Four);

    put(&mut board, king_loc, PieceType::King, Side::White);

    let in_check = KingMoveGen::is_checked(&king_loc, &board);

    assert!(!in_check, "King should not be in check on an empty board.");
}

#[test]
fn test_king_in_check_by_rook() {
    let mut board = Board::new();
    let king_loc = Location::new(File::D, Rank::Four);
    let attacker_loc = Location::new(File::D, Rank::Eight);

    put(&mut board, king_loc, PieceType::King, Side::White);
    put(&mut board, attacker_loc, PieceType::Rook, Side::Black);

    let in_check = KingMoveGen::is_checked(&king_loc, &board);

    assert!(in_check, "King should be in check by a rook.");
}

#[test]
fn test_king_in_check_by_knight() {
    let mut board = Board::new();
    let king_loc = Location::new(File::E, Rank::Four);
    let attacker_loc = Location::new(File::G, Rank::Five);

    put(&mut board, king_loc, PieceType::King, Side::White);
    put(&mut board, attacker_loc, PieceType::Knight, Side::Black);

    let in_check = KingMoveGen::is_checked(&king_loc, &board);

    assert!(in_check, "King should be in check by a knight.");
}

#[test]
fn test_king_not_in_check_blocked_by_friendly_piece() {
    let mut board = Board::new();
    let king_loc = Location::new(File::D, Rank::Four);
    let attacker_loc = Location::new(File::D, Rank::Eight);
    let blocker_loc = Location::new(File::D, Rank::Six);

    put(&mut board, king_loc, PieceType::King, Side::White);
    put(&mut board, attacker_loc, PieceType::Rook, Side::Black);
    put(&mut board, blocker_loc, PieceType::Pawn, Side::White);

    let in_check = KingMoveGen::is_checked(&king_loc, &board);

    assert!(!in_check, "King should not be in check if the attack is blocked by a friendly piece.");
}

#[test]
fn test_king_in_check_by_multiple_attackers() {
    let mut board = Board::new();
    let king_loc = Location::new(File::D, Rank::Four);
    let attacker_1_loc = Location::new(File::D, Rank::Eight);
    let attacker_2_loc = Location::new(File::H, Rank::Four);

    put(&mut board, king_loc, PieceType::King, Side::White);
    put(&mut board, attacker_1_loc, PieceType::Rook, Side::Black);
    put(&mut board, attacker_2_loc, PieceType::Rook, Side::Black);

    let in_check = KingMoveGen::is_checked(&king_loc, &board);

    assert!(in_check, "King should be in check by multiple attackers.");
}

#[test]
fn test_check_pieces_no_attacking_pieces() {
    let mut board = Board::new();
    let king_loc = Location::new(File::E, Rank::Four);

    put(&mut board, king_loc, PieceType::King, Side::White);

    let attack_locations = KingMoveGen::get_checked_pieces_location(&king_loc, &board);

    assert!(attack_locations.is_empty(), "No pieces should be attacking the king.");
}

#[test]
fn test_check_pieces_attacking_rook() {
    let mut board = Board::new();
    let king_loc = Location::new(File::E, Rank::Four);
    let attacker_loc = Location::new(File::E, Rank::Eight);

    put(&mut board, king_loc, PieceType::King, Side::White);
    put(&mut board, attacker_loc, PieceType::Rook, Side::Black);

    let attack_locations = KingMoveGen::get_checked_pieces_location(&king_loc, &board);

    assert_eq!(attack_locations, vec![attacker_loc], "The rook should be threatening the king.");
}

#[test]
fn test_check_pieces_attacking_knight() {
    let mut board = Board::new();
    let king_loc = Location::new(File::E, Rank::Four);
    let attacker_loc = Location::new(File::G, Rank::Five);

    put(&mut board, king_loc, PieceType::King, Side::White);
    put(&mut board, attacker_loc, PieceType::Knight, Side::Black);

    let attack_locations = KingMoveGen::get_checked_pieces_location(&king_loc, &board);

    assert_eq!(attack_locations, vec![attacker_loc], "The knight should be threatening the king.");
}

#[test]
fn test_check_pieces_multiple_attacking_pieces() {
    let mut board = Board::new();
    let king_loc = Location::new(File::E, Rank::Four);
    let attacker1_loc = Location::new(File::E, Rank::Eight);
    let attacker2_loc = Location::new(File::A, Rank::Four);

    put(&mut board, king_loc, PieceType::King, Side::White);
    put(&mut board, attacker1_loc, PieceType::Rook, Side::Black);
    put(&mut board, attacker2_loc, PieceType::Rook, Side::Black);

    let attack_locations = KingMoveGen::get_checked_pieces_location(&king_loc, &board);

    assert_eq!(
        attack_locations,
        vec![attacker1_loc, attacker2_loc],
        "Both rooks should be threatening the king."
    );
}

#[test]
fn test_check_pieces_blocked_attack() {
    let mut board = Board::new();
    let king_loc = Location::new(File::E, Rank::Four);
    let attacker_loc = Location::new(File::E, Rank::Eight);
    let blocker_loc = Location::new(File::E, Rank::Six);

    put(&mut board, king_loc, PieceType::King, Side::White);
    put(&mut board, attacker_loc, PieceType::Rook, Side::Black);
    put(&mut board, blocker_loc, PieceType::Pawn, Side::White);

    let attack_locations = KingMoveGen::get_checked_pieces_location(&king_loc, &board);

    assert!(attack_locations.is_empty(), "The attack should be blocked by a friendly piece.");
}

#[test]
fn test_check_pieces_no_piece_at_location() {
    let mut board = Board::new();
    let empty_loc = Location::new(File::E, Rank::Four);

    board.set(empty_loc, None);

    let attack_locations = KingMoveGen::get_checked_pieces_location(&empty_loc, &board);

    assert!(attack_locations.is_empty(), "No attacks should be detected if there is no piece.");
}

#[test]
fn test_king_side_castling() {
    let mut board = Board::new();
    let king_loc = Location::new(File::E, Rank::One);
    let rook_loc = Location::new(File::H, Rank::One);

    put(&mut board, king_loc, PieceType::King, Side::White);
    put(&mut board, rook_loc, PieceType::Rook, Side::White);

    let moves = KingMoveGen::generate_moves(&board, king_loc, Side::White);

    let expected_castling_move = PieceMovementType::Castle(
        Location::new(File::G, Rank::One),
        Location::new(File::F, Rank::One),
    );

    assert!(moves.contains(&expected_castling_move), "Kingside castling should be a valid move.");
}

#[test]
fn test_queen_side_castling() {
    let mut board = Board::new();
    let king_loc = Location::new(File::E, Rank::One);
    let rook_loc = Location::new(File::A, Rank::One);

    put(&mut board, king_loc, PieceType::King, Side::White);
    put(&mut board, rook_loc, PieceType::Rook, Side::White);

    let moves = KingMoveGen::generate_moves(&board, king_loc, Side::White);

    let expected_castling_move = PieceMovementType::Castle(
        Location::new(File::C, Rank::One),
        Location::new(File::D, Rank::One),
    );

    assert!(moves.contains(&expected_castling_move), "Queenside castling should be a valid move.");
}

#[test]
fn test_castling_blocked_by_piece() {
    let mut board = Board::new();
    let king_loc = Location::new(File::E, Rank::One);
    let rook_loc = Location::new(File::H, Rank::One);
    let blocking_piece_loc = Location::new(File::F, Rank::One);

    put(&mut board, king_loc, PieceType::King, Side::White);
    put(&mut board, rook_loc, PieceType::Rook, Side::White);
    put(&mut board, blocking_piece_loc, PieceType::Bishop, Side::White);

    let moves = KingMoveGen::generate_moves(&board, king_loc, Side::White);

    let invalid_castling_move = PieceMovementType::Castle(
        Location::new(File::G, Rank::One),
        Location::new(File::F, Rank::One),
    );

    assert!(
        !moves.contains(&invalid_castling_move),
        "Kingside castling should not be allowed if there is a blocking piece."
    );
}

#[test]
fn test_black_king_side_castling() {
    let mut board = Board::new();
    let king_loc = Location::new(File::E, Rank::Eight);
    let rook_loc = Location::new(File::H, Rank::Eight);

    put(&mut board, king_loc, PieceType::King, Side::Black);
    put(&mut board, rook_loc, PieceType::Rook, Side::Black);

    let moves = KingMoveGen::generate_moves(&board, king_loc, Side::Black);

    let expected_castling_move = PieceMovementType::Castle(
        Location::new(File::G, Rank::Eight),
        Location::new(File::F, Rank::Eight),
    );

    assert!(
        moves.contains(&expected_castling_move),
        "Black kingside castling should be a valid move."
    );
}

#[test]
fn test_castling_king_has_moved() {
    let mut board = Board::new();
    let king_loc = Location::new(File::E, Rank::One);
    let rook_loc = Location::new(File::H, Rank::One);

    board.set(
        king_loc,
        Some(Piece { piece_type: PieceType::King, side: Side::White, has_moved: true }),
    );
    put(&mut board, rook_loc, PieceType::Rook, Side::White);

    let moves = KingMoveGen::generate_moves(&board, king_loc, Side::White);

    let invalid_castling_move = PieceMovementType::Castle(
        Location::new(File::G, Rank::One),
        Location::new(File::F, Rank::One),
    );

    assert!(
        !moves.contains(&invalid_castling_move),
        "Castling should not be allowed if the king has moved."
    );
}

#[test]
fn test_castling_rook_has_moved() {
    let mut board = Board::new();
    let king_loc = Location::new(File::E, Rank::One);
    let rook_loc = Location::new(File::H, Rank::One);

    put(&mut board, king_loc, PieceType::King, Side::White);
    board.set(
        rook_loc,
        Some(Piece { piece_type: PieceType::Rook, side: Side::White, has_moved: true }),
    );

    let moves = KingMoveGen::generate_moves(&board, king_loc, Side::White);

    let invalid_castling_move = PieceMovementType::Castle(
        Location::new(File::G, Rank::One),
        Location::new(File::F, Rank::One),
    );

    assert!(
        !moves.contains(&invalid_castling_move),
        "Castling should not be allowed if the rook has moved."
    );
}
