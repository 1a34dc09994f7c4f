//! Bit-set boards: the position-indexed bit set, the raw u64 bitboard
//! operations, and the precomputed per-square tables.

use chess_engine::bitboard::BitBoard as RawBitBoard;
use chess_engine::bitset::BoardBitSet;
use chess_engine::pieces::{PieceType, Side};
use chess_engine::position::{File, Position, Rank};
use chess_engine::precomputed::{
    compute_for_all_board, initialize_piece_locations, slot_index, BitBoard,
};

#[test]
fn test_empty_board() {
    let bitset = BoardBitSet::empty();
    assert_eq!(bitset.0, 0);
}

#[test]
fn test_place_at() {
    let pos = Position::new(File::C, Rank::Three);
    let bitset = BoardBitSet::place_at(pos);

    assert_eq!(bitset.0, 1 << 18);
    assert!(bitset.is_set(pos));
}

#[test]
fn test_is_set() {
    let pos = Position::new(File::D, Rank::Four);
    let mut bitset = BoardBitSet::empty();

    assert!(!bitset.is_set(pos));

    bitset = BoardBitSet::place_at(pos);

    assert!(bitset.is_set(pos));
}

#[test]
fn test_place_multiple_at() {
    let positions = vec![
        Position::new(File::A, Rank::One),
        Position::new(File::B, Rank::Two),
        Position::new(File::C, Rank::Three),
    ];

    let bitset = BoardBitSet::place_multiple_at(&positions);

    for pos in positions {
        assert!(bitset.is_set(pos));
    }

    let unset_pos = Position::new(File::D, Rank::Four);
    assert!(!bitset.is_set(unset_pos));
}

#[test]
fn test_place_multiple_at_bitmask() {
    let positions = vec![
        Position::new(File::A, Rank::One),
        Position::new(File::H, Rank::Eight),
    ];

    let bitset = BoardBitSet::place_multiple_at(&positions);

    let expected_bitmask = (1u64 << 0) | (1u64 << 63);
    assert_eq!(bitset.0, expected_bitmask);
}

#[test]
fn test_bitand() {
    let a = RawBitBoard::new(0x00000000000000FF);
    let b = RawBitBoard::new(0x000000000000FF00);
    let expected = RawBitBoard::new(0x0000000000000000);

    assert_eq!(a.and(b), expected);
    assert_eq!(b.and(a), expected);
}

#[test]
fn test_bitor() {
    let a = RawBitBoard::new(0x00000000000000FF);
    let b = RawBitBoard::new(0x000000000000FF00);
    let expected = RawBitBoard::new(0x000000000000FFFF);

    assert_eq!(a.or(b), expected);
    assert_eq!(b.or(a), expected);
}

#[test]
fn test_bitxor() {
    let a = RawBitBoard::new(0x00000000000000FF);
    let b = RawBitBoard::new(0x000000000000FF00);
    let expected = RawBitBoard::new(0x000000000000FFFF);

    assert_eq!(a.xor(b), expected);
    assert_eq!(b.xor(a), expected);
}

#[test]
fn test_not() {
    let a = RawBitBoard::new(0x00000000000000FF);
    let expected = RawBitBoard::new(0xFFFFFFFFFFFFFF00);

    assert_eq!(a.not(), expected);
    assert_eq!(a.not().not(), a);
}

#[test]
fn test_shl() {
    let a = RawBitBoard::new(0x00000000000000FF);
    let expected = RawBitBoard::new(0x000000000000FF00);

    assert_eq!(a.shl(8), expected);
    assert_eq!(a.shl(8).0, 0x000000000000FF00);
}

#[test]
fn test_shr() {
    let a = RawBitBoard::new(0x000000000000FF00);
    let expected = RawBitBoard::new(0x00000000000000FF);

    assert_eq!(a.shr(8), expected);
    assert_eq!(a.shr(8).0, 0x00000000000000FF);
}

#[test]
fn test_reverse() {
    let a = RawBitBoard::new(0x1);
    let expected = RawBitBoard::new(0x8000000000000000);
    assert_eq!(a.reverse(), expected);
    assert_eq!(expected.reverse(), a);
}

#[test]
fn test_bitboard_initialization() {
    let bitboard = BitBoard::new();

    for side in [Side::White, Side::Black] {
        for piece in [
            PieceType::Pawn,
            PieceType::Rook,
            PieceType::Knight,
            PieceType::Bishop,
            PieceType::Queen,
            PieceType::King,
        ] {
            let mut movement_entries = 0;
            let mut capture_entries = 0;
            for idx in 0..64 {
                let pos = Position::from_index(idx);
                let _ = bitboard.movement(side, piece, pos);
                movement_entries += 1;
                let _ = bitboard.capture_movement(side, piece, pos);
                capture_entries += 1;
            }
            assert_eq!(
                movement_entries, 64,
                "Invalid movement length for side {:?} piece {:?}", side, piece
            );
            assert_eq!(
                capture_entries, 64,
                "Invalid capture movement length for side {:?} piece {:?}", side, piece
            );
        }
    }
}

#[test]
fn test_compute_for_all_board() {
    let func = |_: PieceType, pos: &Position, _: Side| -> Vec<Position> {
        vec![Position::new(pos.file, pos.rank)]
    };

    let bitsets = compute_for_all_board(PieceType::King, Side::White, func);

    for file in File::iter() {
        for rank in Rank::iter() {
            let pos = Position::new(file, rank);
            let index = pos.position_bitboard_index();
            assert!(bitsets[index].is_set(pos), "Bitset does not contain position {:?}", pos);
        }
    }
}

#[test]
fn test_from_side_and_piece() {
    assert_eq!(Side::White.index(), 0);
    assert_eq!(Side::Black.index(), 1);

    assert_eq!(slot_index(PieceType::King), 0);
    assert_eq!(slot_index(PieceType::Queen), 1);
    assert_eq!(slot_index(PieceType::Rook), 2);
    assert_eq!(slot_index(PieceType::Bishop), 3);
    assert_eq!(slot_index(PieceType::Knight), 4);
    assert_eq!(slot_index(PieceType::Pawn), 5);
}

#[test]
fn test_initialize_piece_locations() {
    let white_locations = initialize_piece_locations(Side::White);
    let black_locations = initialize_piece_locations(Side::Black);

    assert!(white_locations[0].is_set(Position::new(File::E, Rank::One)));
    assert!(white_locations[1].is_set(Position::new(File::D, Rank::One)));
    assert!(white_locations[2].is_set(Position::new(File::A, Rank::One)));
    assert!(white_locations[2].is_set(Position::new(File::H, Rank::One)));
    assert!(white_locations[5].is_set(Position::new(File::A, Rank::Two)));
    assert!(white_locations[5].is_set(Position::new(File::H, Rank::Two)));

    assert!(black_locations[0].is_set(Position::new(File::E, Rank::Eight)));
    assert!(black_locations[1].is_set(Position::new(File::D, Rank::Eight)));
    assert!(black_locations[2].is_set(Position::new(File::A, Rank::Eight)));
    assert!(black_locations[2].is_set(Position::new(File::H, Rank::Eight)));
    assert!(black_locations[5].is_set(Position::new(File::A, Rank::Seven)));
    assert!(black_locations[5].is_set(Position::new(File::H, Rank::Seven)));
}

#[test]
fn test_bitboard_new() {
    let bitboard = BitBoard::new();

    assert!(bitboard
        .location(Side::White, slot_index(PieceType::King))
        .is_set(Position::new(File::E, Rank::One)));
    assert!(bitboard
        .location(Side::Black, slot_index(PieceType::King))
        .is_set(Position::new(File::E, Rank::Eight)));

    assert!(bitboard
        .location(Side::White, slot_index(PieceType::Pawn))
        .is_set(Position::new(File::A, Rank::Two)));
}
