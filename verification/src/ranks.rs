//! Rank row masks for the raw-bitboard representation, as a
//! stand-alone enumeration.

use vstd::prelude::*;
use crate::bitboard::BitBoard;
use crate::bits::bit64;
use crate::square::rank::lemma_rank_mask_bit;

verus! {

/// The ranks (rows), `One` (bottom) to `Eight` (top).
#[derive(Copy, Clone, PartialEq, Eq, Structural, Debug)]
pub enum Rank {
    One,
    Two,
    Three,
    Four,
    Five,
    Six,
    Seven,
    Eight,
}

/// Index of a rank, `One` = 0 through `Eight` = 7.
pub open spec fn row_index(r: Rank) -> int {
    match r {
        Rank::One => 0,
        Rank::Two => 1,
        Rank::Three => 2,
        Rank::Four => 3,
        Rank::Five => 4,
        Rank::Six => 5,
        Rank::Seven => 6,
        Rank::Eight => 7,
    }
}

impl Rank {
    /// The full row of this rank as a bitboard: every square whose
    /// flat index divided by eight is this rank.
    pub fn as_bitboard(&self) -> (r: BitBoard)
        ensures
            forall|i: u64| i < 64 ==> (#[trigger] bit64(r.0, i) == (i / 8 == row_index(*self))),
    {
        let k: u64 = match self {
            Rank::One => 0,
            Rank::Two => 1,
            Rank::Three => 2,
            Rank::Four => 3,
            Rank::Five => 4,
            Rank::Six => 5,
            Rank::Seven => 6,
            Rank::Eight => 7,
        };
        let r = BitBoard::new(0xffu64 << (8 * k));
        proof {
            assert forall|i: u64| i < 64 implies (#[trigger] bit64(r.0, i) == (i / 8 == row_index(
                *self,
            ))) by {
                lemma_rank_mask_bit(k, i);
            }
        }
        r
    }
}

} // verus!
