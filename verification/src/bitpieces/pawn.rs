//! Pawn move and capture sets over raw bitboards, computed for every
//! pawn of one colour at once by shift arithmetic.

use vstd::prelude::*;
use crate::bitboard::BitBoard;
use crate::bitpieces::common::{empty_squares, occ, rank_mask, step_bits, step_source, Color};
use crate::bits::{bit64, lemma_bit_and, lemma_bit_not, lemma_bit_or, lemma_bit_shl, lemma_bit_shr};
use crate::square::Square;

verus! {

/// A single forward step lands on `t`: a pawn stands one rank behind,
/// `t` is empty, and `t` is not on the far rank.
pub open spec fn pawn_single_bit(piece: u64, own: u64, opponent: u64, c: Color, t: int) -> bool {
    match c {
        Color::White => t / 8 != 7 && step_source(piece, t, 0, 1) && !occ(own, opponent, t),
        Color::Black => t / 8 != 0 && step_source(piece, t, 0, -1) && !occ(own, opponent, t),
    }
}

/// A double step lands on `t`: `t` is on the fourth (or fifth) rank, a
/// pawn stands two ranks behind on its start rank, and both `t` and
/// the square passed through are empty.
pub open spec fn pawn_double_bit(piece: u64, own: u64, opponent: u64, c: Color, t: int) -> bool {
    match c {
        Color::White => t / 8 == 3 && 16 <= t && bit64(piece, (t - 16) as u64) && !occ(
            own,
            opponent,
            t,
        ) && !occ(own, opponent, t - 8),
        Color::Black => t / 8 == 4 && t + 16 < 64 && bit64(piece, (t + 16) as u64) && !occ(
            own,
            opponent,
            t,
        ) && !occ(own, opponent, t + 8),
    }
}

/// A capture lands on `t`: a pawn stands one forward-diagonal step
/// behind, an opposing piece stands on `t`, and no own piece does.
pub open spec fn pawn_capture_bit(piece: u64, own: u64, opponent: u64, c: Color, t: int) -> bool {
    &&& bit64(opponent, t as u64)
    &&& !bit64(own, t as u64)
    &&& match c {
        Color::White => step_source(piece, t, 1, 1) || step_source(piece, t, -1, 1),
        Color::Black => step_source(piece, t, 1, -1) || step_source(piece, t, -1, -1),
    }
}

/// Any pawn move lands on `t`: a single step, a double step, or a
/// capture.
pub open spec fn pawn_moves_bit(piece: u64, own: u64, opponent: u64, c: Color, t: int) -> bool {
    ||| pawn_single_bit(piece, own, opponent, c, t)
    ||| pawn_double_bit(piece, own, opponent, c, t)
    ||| pawn_capture_bit(piece, own, opponent, c, t)
}

/// The pawn calculator.
pub struct Pawn;

impl Pawn {
    /// The single-step targets of every pawn of `color` in `piece`.
    pub fn possible_single_step(
        piece: &BitBoard,
        own_pieces: &BitBoard,
        opponent_pieces: &BitBoard,
        color: &Color,
    ) -> (r: BitBoard)
        ensures
            forall|t: int|
                0 <= t < 64 ==> (#[trigger] bit64(r.0, t as u64) == pawn_single_bit(
                    piece.0,
                    own_pieces.0,
                    opponent_pieces.0,
                    *color,
                    t,
                )),
    {
        let empty = empty_squares(own_pieces, opponent_pieces);
        let (fwd, far): (u64, u64) = match color {
            Color::White => (step_bits(piece, 0, 1), rank_mask(7)),
            Color::Black => (step_bits(piece, 0, -1), rank_mask(0)),
        };
        let r = BitBoard(fwd & empty.0 & !far);
        proof {
            assert forall|t: int| 0 <= t < 64 implies (#[trigger] bit64(r.0, t as u64)
                == pawn_single_bit(
                piece.0,
                own_pieces.0,
                opponent_pieces.0,
                *color,
                t,
            )) by {
                lemma_bit_and(fwd & empty.0, !far, t as u64);
                lemma_bit_and(fwd, empty.0, t as u64);
                lemma_bit_not(far, t as u64);
                lemma_bit_not(own_pieces.0 | opponent_pieces.0, t as u64);
                lemma_bit_or(own_pieces.0, opponent_pieces.0, t as u64);
            }
        }
        r
    }

    /// The double-step targets of every pawn of `color` in `piece`.
    pub fn possible_double_step(
        piece: &BitBoard,
        own_pieces: &BitBoard,
        opponent_pieces: &BitBoard,
        color: &Color,
    ) -> (r: BitBoard)
        ensures
            forall|t: int|
                0 <= t < 64 ==> (#[trigger] bit64(r.0, t as u64) == pawn_double_bit(
                    piece.0,
                    own_pieces.0,
                    opponent_pieces.0,
                    *color,
                    t,
                )),
    {
        let empty = empty_squares(own_pieces, opponent_pieces);
        let white_far = rank_mask(3);
        let black_far = rank_mask(4);
        let r: BitBoard = match color {
            Color::White => BitBoard((piece.0 << 16) & empty.0 & (empty.0 << 8) & white_far),
            Color::Black => BitBoard((piece.0 >> 16) & empty.0 & (empty.0 >> 8) & black_far),
        };
        proof {
            let e = empty.0;
            assert forall|t: int| 0 <= t < 64 implies (#[trigger] bit64(r.0, t as u64)
                == pawn_double_bit(
                piece.0,
                own_pieces.0,
                opponent_pieces.0,
                *color,
                t,
            )) by {
                match *color {
                    Color::White => {
                        let m = white_far;
                        lemma_bit_and((piece.0 << 16) & e & (e << 8), m, t as u64);
                        lemma_bit_and((piece.0 << 16) & e, e << 8, t as u64);
                        lemma_bit_and(piece.0 << 16, e, t as u64);
                        lemma_bit_shl(piece.0, 16, t as u64);
                        lemma_bit_shl(e, 8, t as u64);
                        lemma_bit_not(own_pieces.0 | opponent_pieces.0, t as u64);
                        lemma_bit_or(own_pieces.0, opponent_pieces.0, t as u64);
                        if 8 <= t {
                            lemma_bit_not(own_pieces.0 | opponent_pieces.0, (t - 8) as u64);
                            lemma_bit_or(own_pieces.0, opponent_pieces.0, (t - 8) as u64);
                        }
                    },
                    Color::Black => {
                        let m = black_far;
                        lemma_bit_and((piece.0 >> 16) & e & (e >> 8), m, t as u64);
                        lemma_bit_and((piece.0 >> 16) & e, e >> 8, t as u64);
                        lemma_bit_and(piece.0 >> 16, e, t as u64);
                        lemma_bit_shr(piece.0, 16, t as u64);
                        lemma_bit_shr(e, 8, t as u64);
                        lemma_bit_not(own_pieces.0 | opponent_pieces.0, t as u64);
                        lemma_bit_or(own_pieces.0, opponent_pieces.0, t as u64);
                        if t + 8 < 64 {
                            lemma_bit_not(own_pieces.0 | opponent_pieces.0, (t + 8) as u64);
                            lemma_bit_or(own_pieces.0, opponent_pieces.0, (t + 8) as u64);
                        }
                    },
                }
            }
        }
        r
    }

    /// The capture targets of every pawn of `color` in `piece`.
    pub fn possible_capture_step(
        piece: &BitBoard,
        own_pieces: &BitBoard,
        opponent_pieces: &BitBoard,
        color: &Color,
    ) -> (r: BitBoard)
        ensures
            forall|t: int|
                0 <= t < 64 ==> (#[trigger] bit64(r.0, t as u64) == pawn_capture_bit(
                    piece.0,
                    own_pieces.0,
                    opponent_pieces.0,
                    *color,
                    t,
                )),
    {
        let (left, right): (u64, u64) = match color {
            Color::White => (step_bits(piece, -1, 1), step_bits(piece, 1, 1)),
            Color::Black => (step_bits(piece, -1, -1), step_bits(piece, 1, -1)),
        };
        let r = BitBoard((left | right) & opponent_pieces.0 & !own_pieces.0);
        proof {
            assert forall|t: int| 0 <= t < 64 implies (#[trigger] bit64(r.0, t as u64)
                == pawn_capture_bit(
                piece.0,
                own_pieces.0,
                opponent_pieces.0,
                *color,
                t,
            )) by {
                lemma_bit_and((left | right) & opponent_pieces.0, !own_pieces.0, t as u64);
                lemma_bit_and(left | right, opponent_pieces.0, t as u64);
                lemma_bit_or(left, right, t as u64);
                lemma_bit_not(own_pieces.0, t as u64);
            }
        }
        r
    }

    /// Every pawn move target: single steps, double steps and captures.
    pub fn get_moves(
        piece: &BitBoard,
        _square: Square,
        own_pieces: &BitBoard,
        opponent_pieces: &BitBoard,
        color: &Color,
    ) -> (r: BitBoard)
        ensures
            forall|t: int|
                0 <= t < 64 ==> (#[trigger] bit64(r.0, t as u64) == pawn_moves_bit(
                    piece.0,
                    own_pieces.0,
                    opponent_pieces.0,
                    *color,
                    t,
                )),
    {
        let single = Self::possible_single_step(piece, own_pieces, opponent_pieces, color);
        let double = Self::possible_double_step(piece, own_pieces, opponent_pieces, color);
        let capture = Self::possible_capture_step(piece, own_pieces, opponent_pieces, color);
        let r = BitBoard(single.0 | double.0 | capture.0);
        proof {
            assert forall|t: int| 0 <= t < 64 implies (#[trigger] bit64(r.0, t as u64)
                == pawn_moves_bit(
                piece.0,
                own_pieces.0,
                opponent_pieces.0,
                *color,
                t,
            )) by {
                lemma_bit_or(single.0 | double.0, capture.0, t as u64);
                lemma_bit_or(single.0, double.0, t as u64);
            }
        }
        r
    }

    /// The pawn's capture targets alone.
    pub fn get_capture(
        piece: &BitBoard,
        _square: Square,
        own_pieces: &BitBoard,
        opponent_pieces: &BitBoard,
        color: &Color,
    ) -> (r: BitBoard)
        ensures
            forall|t: int|
                0 <= t < 64 ==> (#[trigger] bit64(r.0, t as u64) == pawn_capture_bit(
                    piece.0,
                    own_pieces.0,
                    opponent_pieces.0,
                    *color,
                    t,
                )),
    {
        Self::possible_capture_step(piece, own_pieces, opponent_pieces, color)
    }
}

} // verus!
