//! Rook move sets over raw bitboards: blocked ray walks along the
//! rook's rank and file, captures included, own pieces excluded.

use vstd::prelude::*;
use crate::bitboard::BitBoard;
use crate::bitpieces::common::{ray_bits, ray_hit, Color};
use crate::bits::{bit64, lemma_bit_and, lemma_bit_not, lemma_bit_or};
use crate::square::{sq_index, Square};
use crate::square::file::sq_file_index;
use crate::square::rank::sq_rank_index;

verus! {

/// A horizontal rook move from `square` lands on `t`: `t` lies on one
/// of the two rank rays before or on the first blocker, and holds no
/// own piece.
pub open spec fn rock_horizontal_bit(own: u64, opponent: u64, square: Square, t: int) -> bool {
    let fi = sq_file_index(square.file);
    let ri = sq_rank_index(square.rank);
    &&& (ray_hit(own, opponent, fi, ri, -1, 0, t) || ray_hit(own, opponent, fi, ri, 1, 0, t))
    &&& !bit64(own, t as u64)
}

/// A vertical rook move from `square` lands on `t`.
pub open spec fn rock_vertical_bit(own: u64, opponent: u64, square: Square, t: int) -> bool {
    let fi = sq_file_index(square.file);
    let ri = sq_rank_index(square.rank);
    &&& (ray_hit(own, opponent, fi, ri, 0, -1, t) || ray_hit(own, opponent, fi, ri, 0, 1, t))
    &&& !bit64(own, t as u64)
}

/// Any rook move from `square` lands on `t`.
pub open spec fn rock_moves_bit(own: u64, opponent: u64, square: Square, t: int) -> bool {
    rock_horizontal_bit(own, opponent, square, t) || rock_vertical_bit(own, opponent, square, t)
}

/// The rook calculator.
pub struct Rock;

impl Rock {
    /// The rook's horizontal moves: both rank rays up to and including
    /// the first occupied square, own pieces then excluded.
    pub fn get_horizontal_moves(
        _piece: &BitBoard,
        square: Square,
        own_pieces: &BitBoard,
        opponent_pieces: &BitBoard,
        _color: &Color,
    ) -> (r: BitBoard)
        ensures
            forall|t: int|
                0 <= t < 64 ==> (#[trigger] bit64(r.0, t as u64) == rock_horizontal_bit(
                    own_pieces.0,
                    opponent_pieces.0,
                    square,
                    t,
                )),
    {
        let fi = square.file().index();
        let ri = square.rank().index();
        let left = ray_bits(own_pieces, opponent_pieces, fi, ri, -1, 0);
        let right = ray_bits(own_pieces, opponent_pieces, fi, ri, 1, 0);
        let r = BitBoard((left | right) & !own_pieces.0);
        proof {
            assert forall|t: int| 0 <= t < 64 implies (#[trigger] bit64(r.0, t as u64)
                == rock_horizontal_bit(own_pieces.0, opponent_pieces.0, square, t)) by {
                lemma_bit_and(left | right, !own_pieces.0, t as u64);
                lemma_bit_or(left, right, t as u64);
                lemma_bit_not(own_pieces.0, t as u64);
            }
        }
        r
    }

    /// The rook's vertical moves: both file rays up to and including
    /// the first occupied square, own pieces then excluded.
    pub fn get_vertical_moves(
        _piece: &BitBoard,
        square: Square,
        own_pieces: &BitBoard,
        opponent_pieces: &BitBoard,
        _color: &Color,
    ) -> (r: BitBoard)
        ensures
            forall|t: int|
                0 <= t < 64 ==> (#[trigger] bit64(r.0, t as u64) == rock_vertical_bit(
                    own_pieces.0,
                    opponent_pieces.0,
                    square,
                    t,
                )),
    {
        let fi = square.file().index();
        let ri = square.rank().index();
        let down = ray_bits(own_pieces, opponent_pieces, fi, ri, 0, -1);
        let up = ray_bits(own_pieces, opponent_pieces, fi, ri, 0, 1);
        let r = BitBoard((down | up) & !own_pieces.0);
        proof {
            assert forall|t: int| 0 <= t < 64 implies (#[trigger] bit64(r.0, t as u64)
                == rock_vertical_bit(own_pieces.0, opponent_pieces.0, square, t)) by {
                lemma_bit_and(down | up, !own_pieces.0, t as u64);
                lemma_bit_or(down, up, t as u64);
                lemma_bit_not(own_pieces.0, t as u64);
            }
        }
        r
    }

    /// Every rook move: the horizontal and vertical walks combined.
    pub fn get_moves(
        piece: &BitBoard,
        square: Square,
        own_pieces: &BitBoard,
        opponent_pieces: &BitBoard,
        color: &Color,
    ) -> (r: BitBoard)
        ensures
            forall|t: int|
                0 <= t < 64 ==> (#[trigger] bit64(r.0, t as u64) == rock_moves_bit(
                    own_pieces.0,
                    opponent_pieces.0,
                    square,
                    t,
                )),
    {
        let h = Self::get_horizontal_moves(piece, square, own_pieces, opponent_pieces, color);
        let v = Self::get_vertical_moves(piece, square, own_pieces, opponent_pieces, color);
        let r = BitBoard(h.0 | v.0);
        proof {
            assert forall|t: int| 0 <= t < 64 implies (#[trigger] bit64(r.0, t as u64)
                == rock_moves_bit(own_pieces.0, opponent_pieces.0, square, t)) by {
                lemma_bit_or(h.0, v.0, t as u64);
            }
        }
        r
    }
}

} // verus!
