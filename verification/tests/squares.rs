//! Square and position bookkeeping: text parsing, flat indices, masks,
//! and the raw-bitboard piece dispatchers.

use chess_engine::bitboard::BitBoard;
use chess_engine::bitpieces::common::Color;
use chess_engine::bitpieces::Piece as BitPiece;
use chess_engine::position::Position;
use chess_engine::ranks;
use chess_engine::square::{File, Rank, Square};

#[test]
fn square_parsing_accepts_squares_and_rejects_noise() {
    let d4 = Square::try_from("d4").expect("d4 parses");
    assert_eq!(d4, Square::new(File::D, Rank::Four));
    assert_eq!(Square::try_from("A1"), Ok(Square::new(File::A, Rank::One)));
    assert!(Square::try_from("").is_err());
    assert!(Square::try_from("d").is_err());
    assert!(Square::try_from("d44").is_err());
    assert!(Square::try_from("z4").is_err());
    assert!(Square::try_from("d9").is_err());
}

#[test]
fn file_and_rank_characters_parse() {
    assert_eq!(File::try_from('a'), Ok(File::A));
    assert_eq!(File::try_from('G'), Ok(File::G));
    assert_eq!(File::try_from('h'), Ok(File::H));
    assert!(File::try_from('x').is_err());
    assert_eq!(Rank::try_from('1'), Ok(Rank::One));
    assert_eq!(Rank::try_from('8'), Ok(Rank::Eight));
    assert!(Rank::try_from('9').is_err());
    assert!(Rank::try_from('a').is_err());
}

#[test]
fn square_index_is_rank_major() {
    assert_eq!(Square::new(File::A, Rank::One).index(), 0);
    assert_eq!(Square::new(File::H, Rank::One).index(), 7);
    assert_eq!(Square::new(File::A, Rank::Two).index(), 8);
    assert_eq!(Square::new(File::H, Rank::Eight).index(), 63);
}

#[test]
fn square_bitboard_holds_exactly_one_bit() {
    let c3 = Square::new(File::C, Rank::Three);
    let mask = c3.to_bitboard();
    assert_eq!(mask.0, 1u64 << 18);
}

#[test]
fn rank_masks_cover_their_rows() {
    assert_eq!(ranks::Rank::One.as_bitboard().0, 0x00000000000000FF);
    assert_eq!(ranks::Rank::Four.as_bitboard().0, 0x00000000FF000000);
    assert_eq!(ranks::Rank::Eight.as_bitboard().0, 0xFF00000000000000);
    assert_eq!(Rank::Two.to_bitboard().0, 0x000000000000FF00);
    assert_eq!(File::A.to_bitboard().0, 0x0101010101010101);
    assert_eq!(File::H.to_bitboard().0, 0x8080808080808080);
}

#[test]
fn position_round_trips_through_its_index() {
    for idx in 0..64 {
        let pos = Position::from_index(idx);
        assert_eq!(pos.position_bitboard_index(), idx);
    }
    assert_eq!(Position::iter().len(), 64);
}

#[test]
fn piece_dispatch_matches_the_calculators() {
    let d4 = Square::new(File::D, Rank::Four);
    let piece = d4.to_bitboard();
    let own = BitBoard::empty();
    let opp = BitBoard::empty();

    let kinds = BitPiece::iter();
    assert_eq!(kinds.len(), 6);

    let knight_moves = BitPiece::Knight.moves_function(&piece, d4, &own, &opp, &Color::White);
    let g6 = Square::new(File::E, Rank::Six).to_bitboard();
    assert!(knight_moves.0 & g6.0 != 0, "a centre knight reaches e6");

    let pawn_attacks = BitPiece::Pawn.capture_function(&piece, d4, &own, &opp, &Color::White);
    assert_eq!(pawn_attacks.0, 0, "no opposing piece means no pawn capture");

    let rook_moves = BitPiece::Rock.moves_function(&piece, d4, &own, &opp, &Color::White);
    let d8 = Square::new(File::D, Rank::Eight).to_bitboard();
    assert!(rook_moves.0 & d8.0 != 0, "an unobstructed rook reaches the top rank");
}

#[test]
fn color_opposite_swaps() {
    assert_eq!(Color::White.opposite(), Color::Black);
    assert_eq!(Color::Black.opposite(), Color::White);
    assert_eq!(Color::White.index(), 0);
    assert_eq!(Color::Black.index(), 1);
}
