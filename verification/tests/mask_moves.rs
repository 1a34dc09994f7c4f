//! Occupancy-free move options and the precomputed slide masks of the
//! mask representation.

use std::collections::HashSet;

use chess_engine::moves::bishop::BishopMoves;
use chess_engine::moves::common::SlideMoveMasks;
use chess_engine::moves::king::KingMoves;
use chess_engine::moves::knight::KnightMoves;
use chess_engine::moves::pawn::PawnMoves;
use chess_engine::moves::queen::QueenMoves;
use chess_engine::moves::rock::RockMoves;
use chess_engine::moves::{get_piece_moves, get_piece_attack};
use chess_engine::pieces::{PieceType, Side};
use chess_engine::position::{File, Position, Rank};

#[test]
fn test_horizontal_mask() {
    let masks = SlideMoveMasks::generate();
    let pos = Position::new(File::D, Rank::Four);
    let mask = masks.horizontal(pos);

    assert!(mask.is_set(Position::new(File::A, Rank::Four)));
    assert!(mask.is_set(Position::new(File::H, Rank::Four)));
    assert!(mask.is_set(Position::new(File::C, Rank::Four)));
    assert!(!mask.is_set(pos));
}

#[test]
fn test_vertical_mask() {
    let masks = SlideMoveMasks::generate();
    let pos = Position::new(File::D, Rank::Four);
    let mask = masks.vertical(pos);

    assert!(mask.is_set(Position::new(File::D, Rank::One)));
    assert!(mask.is_set(Position::new(File::D, Rank::Eight)));
    assert!(mask.is_set(Position::new(File::D, Rank::Three)));
    assert!(!mask.is_set(pos));
}

#[test]
fn test_diagonal_mask() {
    let masks = SlideMoveMasks::generate();
    let pos = Position::new(File::D, Rank::Four);
    let mask = masks.diagonal(pos);
    assert!(mask.is_set(Position::new(File::A, Rank::One)));
    assert!(mask.is_set(Position::new(File::B, Rank::Two)));
    assert!(mask.is_set(Position::new(File::C, Rank::Three)));
    assert!(mask.is_set(Position::new(File::E, Rank::Five)));
    assert!(mask.is_set(Position::new(File::F, Rank::Six)));
    assert!(mask.is_set(Position::new(File::G, Rank::Seven)));
    assert!(mask.is_set(Position::new(File::H, Rank::Eight)));
    assert!(!mask.is_set(pos));
}

#[test]
fn test_anti_diagonal_mask() {
    let masks = SlideMoveMasks::generate();
    let pos = Position::new(File::D, Rank::Four);
    let mask = masks.anti_diagonal(pos);
    assert!(mask.is_set(Position::new(File::C, Rank::Five)));
    assert!(mask.is_set(Position::new(File::E, Rank::Three)));
    assert!(mask.is_set(Position::new(File::B, Rank::Six)));
    assert!(mask.is_set(Position::new(File::F, Rank::Two)));
    assert!(!mask.is_set(pos));
}

#[test]
fn test_rook_movement() {
    let pos = Position::new(File::D, Rank::Four);

    let expected: Vec<_> = vec![
        Position::new(File::A, Rank::Four),
        Position::new(File::B, Rank::Four),
        Position::new(File::C, Rank::Four),
        Position::new(File::E, Rank::Four),
        Position::new(File::F, Rank::Four),
        Position::new(File::G, Rank::Four),
        Position::new(File::H, Rank::Four),
        Position::new(File::D, Rank::One),
        Position::new(File::D, Rank::Two),
        Position::new(File::D, Rank::Three),
        Position::new(File::D, Rank::Five),
        Position::new(File::D, Rank::Six),
        Position::new(File::D, Rank::Seven),
        Position::new(File::D, Rank::Eight),
    ];

    let result: Vec<_> = RockMoves::move_options(&pos, Side::White);
    assert_eq!(result, expected);
}

#[test]
fn test_bishop_movement() {
    let pos = Position::new(File::D, Rank::Four);

    let expected: Vec<_> = vec![
        Position::new(File::E, Rank::Five),
        Position::new(File::F, Rank::Six),
        Position::new(File::G, Rank::Seven),
        Position::new(File::H, Rank::Eight),
        Position::new(File::C, Rank::Three),
        Position::new(File::B, Rank::Two),
        Position::new(File::A, Rank::One),
        Position::new(File::C, Rank::Five),
        Position::new(File::B, Rank::Six),
        Position::new(File::A, Rank::Seven),
        Position::new(File::E, Rank::Three),
        Position::new(File::F, Rank::Two),
        Position::new(File::G, Rank::One),
    ];

    let result: Vec<_> = BishopMoves::move_options(&pos, Side::White);
    assert_eq!(result, expected);
}

#[test]
fn test_queen_move_options() {
    let pos = Position::new(File::D, Rank::Four);

    let expected: Vec<_> = vec![
        Position::new(File::A, Rank::Four),
        Position::new(File::B, Rank::Four),
        Position::new(File::C, Rank::Four),
        Position::new(File::E, Rank::Four),
        Position::new(File::F, Rank::Four),
        Position::new(File::G, Rank::Four),
        Position::new(File::H, Rank::Four),
        Position::new(File::D, Rank::One),
        Position::new(File::D, Rank::Two),
        Position::new(File::D, Rank::Three),
        Position::new(File::D, Rank::Five),
        Position::new(File::D, Rank::Six),
        Position::new(File::D, Rank::Seven),
        Position::new(File::D, Rank::Eight),
        Position::new(File::E, Rank::Five),
        Position::new(File::F, Rank::Six),
        Position::new(File::G, Rank::Seven),
        Position::new(File::H, Rank::Eight),
        Position::new(File::C, Rank::Three),
        Position::new(File::B, Rank::Two),
        Position::new(File::A, Rank::One),
        Position::new(File::C, Rank::Five),
        Position::new(File::B, Rank::Six),
        Position::new(File::A, Rank::Seven),
        Position::new(File::E, Rank::Three),
        Position::new(File::F, Rank::Two),
        Position::new(File::G, Rank::One),
    ];

    let result: Vec<_> = QueenMoves::move_options(&pos, Side::White);
    assert_eq!(result, expected);
}

#[test]
fn test_queen_attack_options() {
    let pos = Position::new(File::D, Rank::Four);

    let expected: Vec<_> = vec![
        Position::new(File::A, Rank::Four),
        Position::new(File::B, Rank::Four),
        Position::new(File::C, Rank::Four),
        Position::new(File::E, Rank::Four),
        Position::new(File::F, Rank::Four),
        Position::new(File::G, Rank::Four),
        Position::new(File::H, Rank::Four),
        Position::new(File::D, Rank::One),
        Position::new(File::D, Rank::Two),
        Position::new(File::D, Rank::Three),
        Position::new(File::D, Rank::Five),
        Position::new(File::D, Rank::Six),
        Position::new(File::D, Rank::Seven),
        Position::new(File::D, Rank::Eight),
        Position::new(File::E, Rank::Five),
        Position::new(File::F, Rank::Six),
        Position::new(File::G, Rank::Seven),
        Position::new(File::H, Rank::Eight),
        Position::new(File::C, Rank::Three),
        Position::new(File::B, Rank::Two),
        Position::new(File::A, Rank::One),
        Position::new(File::C, Rank::Five),
        Position::new(File::B, Rank::Six),
        Position::new(File::A, Rank::Seven),
        Position::new(File::E, Rank::Three),
        Position::new(File::F, Rank::Two),
        Position::new(File::G, Rank::One),
    ];

    let result: Vec<_> = QueenMoves::attack_option(&pos, Side::White);
    assert_eq!(result, expected);
}

#[test]
fn test_knight_moves_all_board() {
    let pos = Position::new(File::D, Rank::Four);

    let expected: Vec<_> = vec![
        Position::new(File::F, Rank::Five),
        Position::new(File::F, Rank::Three),
        Position::new(File::B, Rank::Five),
        Position::new(File::B, Rank::Three),
        Position::new(File::E, Rank::Six),
        Position::new(File::E, Rank::Two),
        Position::new(File::C, Rank::Six),
        Position::new(File::C, Rank::Two),
    ];

    let result: Vec<_> = KnightMoves::move_options(&pos, Side::White);
    assert_eq!(result, expected);
}

#[test]
fn test_knight_moves_at_edge() {
    let pos = Position::new(File::H, Rank::Eight);

    let expected: Vec<_> = vec![
        Position::new(File::F, Rank::Seven),
        Position::new(File::G, Rank::Six),
    ];

    let result: Vec<_> = KnightMoves::move_options(&pos, Side::White);
    assert_eq!(result, expected);
}

#[test]
fn test_king_moves_all_options() {
    let pos = Position::new(File::D, Rank::Four);

    let expected: HashSet<_> = vec![
        Position::new(File::E, Rank::Four),
        Position::new(File::E, Rank::Five),
        Position::new(File::D, Rank::Five),
        Position::new(File::C, Rank::Five),
        Position::new(File::C, Rank::Four),
        Position::new(File::C, Rank::Three),
        Position::new(File::D, Rank::Three),
        Position::new(File::E, Rank::Three),
    ]
    .into_iter()
    .collect();

    let result: HashSet<_> = KingMoves::move_options(&pos, Side::White).into_iter().collect();
    assert_eq!(result, expected);
}

#[test]
fn test_king_moves_limited_options() {
    let pos = Position::new(File::H, Rank::Eight);

    let expected: HashSet<_> = vec![
        Position::new(File::G, Rank::Eight),
        Position::new(File::G, Rank::Seven),
        Position::new(File::H, Rank::Seven),
    ]
    .into_iter()
    .collect();

    let result: HashSet<_> = KingMoves::move_options(&pos, Side::White).into_iter().collect();
    assert_eq!(result, expected);
}

#[test]
fn test_white_pawn_moves_initial() {
    let pos = Position::new(File::D, Rank::Two);

    let expected: HashSet<_> = vec![
        Position::new(File::D, Rank::Three),
        Position::new(File::D, Rank::Four),
    ]
    .into_iter()
    .collect();

    let result: HashSet<_> = PawnMoves::move_options(&pos, Side::White).into_iter().collect();
    assert_eq!(result, expected);
}

#[test]
fn test_black_pawn_moves_initial() {
    let pos = Position::new(File::D, Rank::Seven);

    let expected: HashSet<_> = vec![
        Position::new(File::D, Rank::Six),
        Position::new(File::D, Rank::Five),
    ]
    .into_iter()
    .collect();

    let result: HashSet<_> = PawnMoves::move_options(&pos, Side::Black).into_iter().collect();
    assert_eq!(result, expected);
}

#[test]
fn test_white_pawn_moves_non_initial() {
    let pos = Position::new(File::D, Rank::Three);

    let expected: HashSet<_> =
        vec![Position::new(File::D, Rank::Four)].into_iter().collect();

    let result: HashSet<_> = PawnMoves::move_options(&pos, Side::White).into_iter().collect();
    assert_eq!(result, expected);
}

#[test]
fn test_black_pawn_moves_non_initial() {
    let pos = Position::new(File::D, Rank::Six);

    let expected: HashSet<_> =
        vec![Position::new(File::D, Rank::Five)].into_iter().collect();

    let result: HashSet<_> = PawnMoves::move_options(&pos, Side::Black).into_iter().collect();
    assert_eq!(result, expected);
}

#[test]
fn test_white_pawn_attack() {
    let pos = Position::new(File::D, Rank::Two);

    let expected: HashSet<_> = vec![
        Position::new(File::C, Rank::Three),
        Position::new(File::E, Rank::Three),
    ]
    .into_iter()
    .collect();

    let result: HashSet<_> = PawnMoves::attack_options(&pos, Side::White).into_iter().collect();
    assert_eq!(result, expected);
}

#[test]
fn test_black_pawn_attack() {
    let pos = Position::new(File::D, Rank::Seven);

    let expected: HashSet<_> = vec![
        Position::new(File::C, Rank::Six),
        Position::new(File::E, Rank::Six),
    ]
    .into_iter()
    .collect();

    let result: HashSet<_> = PawnMoves::attack_options(&pos, Side::Black).into_iter().collect();
    assert_eq!(result, expected);
}

#[test]
fn test_rook_moves() {
    let pos = Position::new(File::D, Rank::Four);
    let expected: HashSet<_> = vec![
        Position::new(File::A, Rank::Four),
        Position::new(File::B, Rank::Four),
        Position::new(File::C, Rank::Four),
        Position::new(File::E, Rank::Four),
        Position::new(File::F, Rank::Four),
        Position::new(File::G, Rank::Four),
        Position::new(File::H, Rank::Four),
        Position::new(File::D, Rank::One),
        Position::new(File::D, Rank::Two),
        Position::new(File::D, Rank::Three),
        Position::new(File::D, Rank::Five),
        Position::new(File::D, Rank::Six),
        Position::new(File::D, Rank::Seven),
        Position::new(File::D, Rank::Eight),
    ]
    .into_iter()
    .collect();

    let result: HashSet<_> =
        get_piece_moves(PieceType::Rook, &pos, Side::White).into_iter().collect();
    assert_eq!(result, expected);
}

#[test]
fn test_bishop_moves() {
    let pos = Position::new(File::D, Rank::Four);
    let expected: HashSet<_> = vec![
        Position::new(File::E, Rank::Five),
        Position::new(File::F, Rank::Six),
        Position::new(File::G, Rank::Seven),
        Position::new(File::H, Rank::Eight),
        Position::new(File::C, Rank::Three),
        Position::new(File::B, Rank::Two),
        Position::new(File::A, Rank::One),
        Position::new(File::C, Rank::Five),
        Position::new(File::B, Rank::Six),
        Position::new(File::A, Rank::Seven),
        Position::new(File::E, Rank::Three),
        Position::new(File::F, Rank::Two),
        Position::new(File::G, Rank::One),
    ]
    .into_iter()
    .collect();

    let result: HashSet<_> =
        get_piece_moves(PieceType::Bishop, &pos, Side::White).into_iter().collect();
    assert_eq!(result, expected);
}

#[test]
fn test_queen_moves() {
    let pos = Position::new(File::D, Rank::Four);
    let expected: HashSet<_> = vec![
        Position::new(File::A, Rank::Four),
        Position::new(File::B, Rank::Four),
        Position::new(File::C, Rank::Four),
        Position::new(File::E, Rank::Four),
        Position::new(File::F, Rank::Four),
        Position::new(File::G, Rank::Four),
        Position::new(File::H, Rank::Four),
        Position::new(File::D, Rank::One),
        Position::new(File::D, Rank::Two),
        Position::new(File::D, Rank::Three),
        Position::new(File::D, Rank::Five),
        Position::new(File::D, Rank::Six),
        Position::new(File::D, Rank::Seven),
        Position::new(File::D, Rank::Eight),
        Position::new(File::E, Rank::Five),
        Position::new(File::F, Rank::Six),
        Position::new(File::G, Rank::Seven),
        Position::new(File::H, Rank::Eight),
        Position::new(File::C, Rank::Three),
        Position::new(File::B, Rank::Two),
        Position::new(File::A, Rank::One),
        Position::new(File::C, Rank::Five),
        Position::new(File::B, Rank::Six),
        Position::new(File::A, Rank::Seven),
        Position::new(File::E, Rank::Three),
        Position::new(File::F, Rank::Two),
        Position::new(File::G, Rank::One),
    ]
    .into_iter()
    .collect();

    let result: HashSet<_> =
        get_piece_moves(PieceType::Queen, &pos, Side::White).into_iter().collect();
    assert_eq!(result, expected);
}

#[test]
fn test_pawn_moves() {
    let pos = Position::new(File::D, Rank::Two);
    let expected: HashSet<_> = vec![
        Position::new(File::D, Rank::Three),
        Position::new(File::D, Rank::Four),
    ]
    .into_iter()
    .collect();

    let result: HashSet<_> =
        get_piece_moves(PieceType::Pawn, &pos, Side::White).into_iter().collect();
    assert_eq!(result, expected);
}

#[test]
fn test_king_moves() {
    let pos = Position::new(File::D, Rank::Four);
    let expected: HashSet<_> = vec![
        Position::new(File::E, Rank::Four),
        Position::new(File::E, Rank::Five),
        Position::new(File::D, Rank::Five),
        Position::new(File::C, Rank::Five),
        Position::new(File::C, Rank::Four),
        Position::new(File::C, Rank::Three),
        Position::new(File::D, Rank::Three),
        Position::new(File::E, Rank::Three),
    ]
    .into_iter()
    .collect();

    let result: HashSet<_> =
        get_piece_moves(PieceType::King, &pos, Side::White).into_iter().collect();
    assert_eq!(result, expected);
}

#[test]
fn test_knight_moves() {
    let pos = Position::new(File::D, Rank::Four);
    let expected: HashSet<_> = vec![
        Position::new(File::E, Rank::Six),
        Position::new(File::F, Rank::Five),
        Position::new(File::F, Rank::Three),
        Position::new(File::E, Rank::Two),
        Position::new(File::C, Rank::Two),
        Position::new(File::B, Rank::Three),
        Position::new(File::B, Rank::Five),
        Position::new(File::C, Rank::Six),
    ]
    .into_iter()
    .collect();

    let result: HashSet<_> =
        get_piece_moves(PieceType::Knight, &pos, Side::White).into_iter().collect();
    assert_eq!(result, expected);
}

#[test]
fn test_pawn_attack_differs_from_moves() {
    let pos = Position::new(File::D, Rank::Two);
    let attacks: HashSet<_> =
        get_piece_attack(PieceType::Pawn, &pos, Side::White).into_iter().collect();
    let expected: HashSet<_> = vec![
        Position::new(File::C, Rank::Three),
        Position::new(File::E, Rank::Three),
    ]
    .into_iter()
    .collect();
    assert_eq!(attacks, expected);
}
