//! Ranks for the raw-bitboard representation, with their row masks.

use vstd::prelude::*;
use crate::bitboard::BitBoard;
use crate::bits::bit64;

verus! {

/// The ranks (rows), `One` (bottom) to `Eight` (top).
#[derive(Copy, Clone, PartialEq, Eq, Structural, Debug)]
pub enum Rank {
    One,
    Two,
    Three,
    Four,
    Five,
    Six,
    Seven,
    Eight,
}

/// Index of a rank, `One` = 0 through `Eight` = 7.
pub open spec fn sq_rank_index(r: Rank) -> int {
    match r {
        Rank::One => 0,
        Rank::Two => 1,
        Rank::Three => 2,
        Rank::Four => 3,
        Rank::Five => 4,
        Rank::Six => 5,
        Rank::Seven => 6,
        Rank::Eight => 7,
    }
}

/// The bit mask of one row: bit `i` is set exactly when square `i`
/// lies on the rank with index `r`.
pub proof fn lemma_rank_mask_bit(r: u64, i: u64)
    requires
        r < 8,
        i < 64,
    ensures
        bit64(0xffu64 << (8 * r), i) == (i / 8 == r),
{
    assert(((0xffu64 << (8 * r)) & (1u64 << i) != 0) == (i / 8 == r)) by (bit_vector)
        requires
            r < 8 && i < 64,
    ;
}

impl Rank {
    /// This rank's index, `One` = 0 through `Eight` = 7.
    pub fn index(self) -> (r: usize)
        ensures
            r == sq_rank_index(self),
    {
        match self {
            Rank::One => 0,
            Rank::Two => 1,
            Rank::Three => 2,
            Rank::Four => 3,
            Rank::Five => 4,
            Rank::Six => 5,
            Rank::Seven => 6,
            Rank::Eight => 7,
        }
    }

    /// The full row of this rank as a bitboard: every square whose
    /// flat index divided by eight is this rank.
    pub fn to_bitboard(self) -> (r: BitBoard)
        ensures
            forall|i: u64|
                i < 64 ==> (#[trigger] bit64(r.0, i) == (i / 8 == sq_rank_index(self))),
    {
        let k = self.index() as u64;
        let r = BitBoard::new(0xffu64 << (8 * k));
        proof {
            assert forall|i: u64| i < 64 implies (#[trigger] bit64(r.0, i) == (i / 8
                == sq_rank_index(self))) by {
                lemma_rank_mask_bit(k, i);
            }
        }
        r
    }

    /// Parses a rank digit (`'1'` .. `'8'`).
    pub fn try_from(rank: char) -> (r: Result<Rank, ()>)
        ensures
            r == (if rank == '1' {
                Ok::<Rank, ()>(Rank::One)
            } else if rank == '2' {
                Ok::<Rank, ()>(Rank::Two)
            } else if rank == '3' {
                Ok::<Rank, ()>(Rank::Three)
            } else if rank == '4' {
                Ok::<Rank, ()>(Rank::Four)
            } else if rank == '5' {
                Ok::<Rank, ()>(Rank::Five)
            } else if rank == '6' {
                Ok::<Rank, ()>(Rank::Six)
            } else if rank == '7' {
                Ok::<Rank, ()>(Rank::Seven)
            } else if rank == '8' {
                Ok::<Rank, ()>(Rank::Eight)
            } else {
                Err::<Rank, ()>(())
            }),
    {
        match rank {
            '1' => Ok(Rank::One),
            '2' => Ok(Rank::Two),
            '3' => Ok(Rank::Three),
            '4' => Ok(Rank::Four),
            '5' => Ok(Rank::Five),
            '6' => Ok(Rank::Six),
            '7' => Ok(Rank::Seven),
            '8' => Ok(Rank::Eight),
            _ => Err(()),
        }
    }
}

} // verus!
