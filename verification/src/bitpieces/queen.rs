//! Queen move sets over raw bitboards: the rook's and bishop's walks
//! combined.

use vstd::prelude::*;
use crate::bitboard::BitBoard;
use crate::bitpieces::bishop::{bishop_moves_bit, Bishop};
use crate::bitpieces::common::Color;
use crate::bitpieces::rock::{rock_moves_bit, Rock};
use crate::bits::{bit64, lemma_bit_or};
use crate::square::Square;

verus! {

/// Any queen move from `square` lands on `t`: a rook move or a bishop
/// move.
pub open spec fn queen_moves_bit(own: u64, opponent: u64, square: Square, t: int) -> bool {
    rock_moves_bit(own, opponent, square, t) || bishop_moves_bit(own, opponent, square, t)
}

/// The queen calculator.
pub struct Queen;

impl Queen {
    /// Every queen move: the rook and bishop walks combined.
    pub fn get_moves(
        piece: &BitBoard,
        square: Square,
        own_pieces: &BitBoard,
        opponent_pieces: &BitBoard,
        color: &Color,
    ) -> (r: BitBoard)
        ensures
            forall|t: int|
                0 <= t < 64 ==> (#[trigger] bit64(r.0, t as u64) == queen_moves_bit(
                    own_pieces.0,
                    opponent_pieces.0,
                    square,
                    t,
                )),
    {
        let rk = Rock::get_moves(piece, square, own_pieces, opponent_pieces, color);
        let bp = Bishop::get_moves(piece, square, own_pieces, opponent_pieces, color);
        let r = BitBoard(rk.0 | bp.0);
        proof {
            assert forall|t: int| 0 <= t < 64 implies (#[trigger] bit64(r.0, t as u64)
                == queen_moves_bit(own_pieces.0, opponent_pieces.0, square, t)) by {
                lemma_bit_or(rk.0, bp.0, t as u64);
            }
        }
        r
    }
}

} // verus!
