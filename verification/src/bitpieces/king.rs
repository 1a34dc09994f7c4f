//! King move sets over raw bitboards: the eight adjacent squares of
//! the king, with edge wrap prevented by file and rank masks.

use vstd::prelude::*;
use crate::bitboard::BitBoard;
use crate::bitpieces::common::{step_bits, step_source, Color};
use crate::bits::{bit64, lemma_bit_and, lemma_bit_not, lemma_bit_or};
use crate::square::Square;

verus! {

/// A king step lands on `t`: the king stands one step away in some
/// direction, and neither an own piece nor the king itself occupies
/// `t`.
pub open spec fn king_moves_bit(piece: u64, own: u64, t: int) -> bool {
    &&& {
        ||| step_source(piece, t, -1, -1)
        ||| step_source(piece, t, 0, -1)
        ||| step_source(piece, t, 1, -1)
        ||| step_source(piece, t, -1, 0)
        ||| step_source(piece, t, 1, 0)
        ||| step_source(piece, t, -1, 1)
        ||| step_source(piece, t, 0, 1)
        ||| step_source(piece, t, 1, 1)
    }
    &&& !bit64(own, t as u64)
    &&& !bit64(piece, t as u64)
}

/// The king calculator.
pub struct King;

impl King {
    /// Every adjacent square not blocked by an own piece.
    pub fn get_moves(
        piece: &BitBoard,
        _square: Square,
        own_pieces: &BitBoard,
        _opponent_pieces: &BitBoard,
        _color: &Color,
    ) -> (r: BitBoard)
        ensures
            forall|t: int|
                0 <= t < 64 ==> (#[trigger] bit64(r.0, t as u64) == king_moves_bit(
                    piece.0,
                    own_pieces.0,
                    t,
                )),
    {
        let m1 = step_bits(piece, -1, -1);
        let m2 = step_bits(piece, 0, -1);
        let m3 = step_bits(piece, 1, -1);
        let m4 = step_bits(piece, -1, 0);
        let m5 = step_bits(piece, 1, 0);
        let m6 = step_bits(piece, -1, 1);
        let m7 = step_bits(piece, 0, 1);
        let m8 = step_bits(piece, 1, 1);
        let all = m1 | m2 | m3 | m4 | m5 | m6 | m7 | m8;
        let r = BitBoard(all & !(piece.0 | own_pieces.0));
        proof {
            assert forall|t: int| 0 <= t < 64 implies (#[trigger] bit64(r.0, t as u64)
                == king_moves_bit(piece.0, own_pieces.0, t)) by {
                lemma_bit_and(all, !(piece.0 | own_pieces.0), t as u64);
                lemma_bit_not(piece.0 | own_pieces.0, t as u64);
                lemma_bit_or(piece.0, own_pieces.0, t as u64);
                lemma_bit_or(m1 | m2 | m3 | m4 | m5 | m6 | m7, m8, t as u64);
                lemma_bit_or(m1 | m2 | m3 | m4 | m5 | m6, m7, t as u64);
                lemma_bit_or(m1 | m2 | m3 | m4 | m5, m6, t as u64);
                lemma_bit_or(m1 | m2 | m3 | m4, m5, t as u64);
                lemma_bit_or(m1 | m2 | m3, m4, t as u64);
                lemma_bit_or(m1 | m2, m3, t as u64);
                lemma_bit_or(m1, m2, t as u64);
            }
        }
        r
    }
}

} // verus!
