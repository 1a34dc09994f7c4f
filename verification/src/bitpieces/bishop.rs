//! Bishop move sets over raw bitboards: blocked ray walks along both
//! diagonals, plus the full diagonal masks of a square.

use vstd::prelude::*;
use crate::bitboard::BitBoard;
use crate::bitpieces::common::{ray_bits, ray_hit, Color};
use crate::bits::{bit64, lemma_bit_and, lemma_bit_not, lemma_bit_or, lemma_bit_single,
    lemma_bit_zero};
use crate::square::Square;
use crate::square::file::sq_file_index;
use crate::square::rank::sq_rank_index;

verus! {

/// A rising-diagonal bishop move from `square` lands on `t`.
pub open spec fn bishop_diagonal_bit(own: u64, opponent: u64, square: Square, t: int) -> bool {
    let fi = sq_file_index(square.file);
    let ri = sq_rank_index(square.rank);
    &&& (ray_hit(own, opponent, fi, ri, 1, 1, t) || ray_hit(own, opponent, fi, ri, -1, -1, t))
    &&& !bit64(own, t as u64)
}

/// A falling-diagonal bishop move from `square` lands on `t`.
pub open spec fn bishop_anti_diagonal_bit(own: u64, opponent: u64, square: Square, t: int) -> bool {
    let fi = sq_file_index(square.file);
    let ri = sq_rank_index(square.rank);
    &&& (ray_hit(own, opponent, fi, ri, -1, 1, t) || ray_hit(own, opponent, fi, ri, 1, -1, t))
    &&& !bit64(own, t as u64)
}

/// Any bishop move from `square` lands on `t`.
pub open spec fn bishop_moves_bit(own: u64, opponent: u64, square: Square, t: int) -> bool {
    bishop_diagonal_bit(own, opponent, square, t) || bishop_anti_diagonal_bit(
        own,
        opponent,
        square,
        t,
    )
}

/// The bishop calculator.
pub struct Bishop;

impl Bishop {
    /// The full rising diagonal through `square`: every square whose
    /// file minus rank matches.
    pub fn get_diagonal_mask(square: Square) -> (r: BitBoard)
        ensures
            forall|t: int|
                0 <= t < 64 ==> (#[trigger] bit64(r.0, t as u64) == (t % 8 - t / 8 == sq_file_index(
                    square.file,
                ) - sq_rank_index(square.rank))),
    {
        let d: i16 = square.file().index() as i16 - square.rank().index() as i16;
        let mut acc: u64 = 0;
        proof {
            assert forall|j: u64| j < 64 implies !bit64(0u64, j) by {
                lemma_bit_zero(j);
            }
        }
        let mut i: usize = 0;
        while i < 64
            invariant
                i <= 64,
                d as int == sq_file_index(square.file) - sq_rank_index(square.rank),
                forall|t: int|
                    0 <= t < 64 ==> (#[trigger] bit64(acc, t as u64) == (t < i && t % 8 - t / 8
                        == d as int)),
            decreases 64 - i,
        {
            let ghost prev = acc;
            if (i % 8) as i16 - (i / 8) as i16 == d {
                acc = acc | (1u64 << (i as u64));
            }
            proof {
                assert forall|t: int| 0 <= t < 64 implies (#[trigger] bit64(acc, t as u64) == (t
                    < i + 1 && t % 8 - t / 8 == d as int)) by {
                    lemma_bit_or(prev, 1u64 << (i as u64), t as u64);
                    lemma_bit_single(i as u64, t as u64);
                }
            }
            i = i + 1;
        }
        BitBoard(acc)
    }

    /// The full falling diagonal through `square`: every square whose
    /// file plus rank matches.
    pub fn get_anti_diagonal_mask(square: Square) -> (r: BitBoard)
        ensures
            forall|t: int|
                0 <= t < 64 ==> (#[trigger] bit64(r.0, t as u64) == (t % 8 + t / 8 == sq_file_index(
                    square.file,
                ) + sq_rank_index(square.rank))),
    {
        let d: usize = square.file().index() + square.rank().index();
        let mut acc: u64 = 0;
        proof {
            assert forall|j: u64| j < 64 implies !bit64(0u64, j) by {
                lemma_bit_zero(j);
            }
        }
        let mut i: usize = 0;
        while i < 64
            invariant
                i <= 64,
                d as int == sq_file_index(square.file) + sq_rank_index(square.rank),
                forall|t: int|
                    0 <= t < 64 ==> (#[trigger] bit64(acc, t as u64) == (t < i && t % 8 + t / 8
                        == d as int)),
            decreases 64 - i,
        {
            let ghost prev = acc;
            if i % 8 + i / 8 == d {
                acc = acc | (1u64 << (i as u64));
            }
            proof {
                assert forall|t: int| 0 <= t < 64 implies (#[trigger] bit64(acc, t as u64) == (t
                    < i + 1 && t % 8 + t / 8 == d as int)) by {
                    lemma_bit_or(prev, 1u64 << (i as u64), t as u64);
                    lemma_bit_single(i as u64, t as u64);
                }
            }
            i = i + 1;
        }
        BitBoard(acc)
    }

    /// The bishop's rising-diagonal moves: both rays up to and
    /// including the first occupied square, own pieces then excluded.
    pub fn get_diagonal_moves(
        _piece: &BitBoard,
        square: Square,
        own_pieces: &BitBoard,
        opponent_pieces: &BitBoard,
        _color: &Color,
    ) -> (r: BitBoard)
        ensures
            forall|t: int|
                0 <= t < 64 ==> (#[trigger] bit64(r.0, t as u64) == bishop_diagonal_bit(
                    own_pieces.0,
                    opponent_pieces.0,
                    square,
                    t,
                )),
    {
        let fi = square.file().index();
        let ri = square.rank().index();
        let up = ray_bits(own_pieces, opponent_pieces, fi, ri, 1, 1);
        let down = ray_bits(own_pieces, opponent_pieces, fi, ri, -1, -1);
        let r = BitBoard((up | down) & !own_pieces.0);
        proof {
            assert forall|t: int| 0 <= t < 64 implies (#[trigger] bit64(r.0, t as u64)
                == bishop_diagonal_bit(own_pieces.0, opponent_pieces.0, square, t)) by {
                lemma_bit_and(up | down, !own_pieces.0, t as u64);
                lemma_bit_or(up, down, t as u64);
                lemma_bit_not(own_pieces.0, t as u64);
            }
        }
        r
    }

    /// The bishop's falling-diagonal moves.
    pub fn get_anti_diagonal_moves(
        _piece: &BitBoard,
        square: Square,
        own_pieces: &BitBoard,
        opponent_pieces: &BitBoard,
        _color: &Color,
    ) -> (r: BitBoard)
        ensures
            forall|t: int|
                0 <= t < 64 ==> (#[trigger] bit64(r.0, t as u64) == bishop_anti_diagonal_bit(
                    own_pieces.0,
                    opponent_pieces.0,
                    square,
                    t,
                )),
    {
        let fi = square.file().index();
        let ri = square.rank().index();
        let up = ray_bits(own_pieces, opponent_pieces, fi, ri, -1, 1);
        let down = ray_bits(own_pieces, opponent_pieces, fi, ri, 1, -1);
        let r = BitBoard((up | down) & !own_pieces.0);
        proof {
            assert forall|t: int| 0 <= t < 64 implies (#[trigger] bit64(r.0, t as u64)
                == bishop_anti_diagonal_bit(own_pieces.0, opponent_pieces.0, square, t)) by {
                lemma_bit_and(up | down, !own_pieces.0, t as u64);
                lemma_bit_or(up, down, t as u64);
                lemma_bit_not(own_pieces.0, t as u64);
            }
        }
        r
    }

    /// Every bishop move: both diagonal walks combined.
    pub fn get_moves(
        piece: &BitBoard,
        square: Square,
        own_pieces: &BitBoard,
        opponent_pieces: &BitBoard,
        color: &Color,
    ) -> (r: BitBoard)
        ensures
            forall|t: int|
                0 <= t < 64 ==> (#[trigger] bit64(r.0, t as u64) == bishop_moves_bit(
                    own_pieces.0,
                    opponent_pieces.0,
                    square,
                    t,
                )),
    {
        let d = Self::get_diagonal_moves(piece, square, own_pieces, opponent_pieces, color);
        let a = Self::get_anti_diagonal_moves(piece, square, own_pieces, opponent_pieces, color);
        let r = BitBoard(d.0 | a.0);
        proof {
            assert forall|t: int| 0 <= t < 64 implies (#[trigger] bit64(r.0, t as u64)
                == bishop_moves_bit(own_pieces.0, opponent_pieces.0, square, t)) by {
                lemma_bit_or(d.0, a.0, t as u64);
            }
        }
        r
    }
}

} // verus!
