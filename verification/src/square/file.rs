//! Files for the raw-bitboard representation, with their column masks.

use vstd::prelude::*;
use crate::bitboard::BitBoard;
use crate::bits::bit64;

verus! {

/// The files (columns), `A` (leftmost) to `H` (rightmost).
#[derive(Copy, Clone, PartialEq, Eq, Structural, Debug)]
pub enum File {
    A,
    B,
    C,
    D,
    E,
    F,
    G,
    H,
}

/// Index of a file, `A` = 0 through `H` = 7.
pub open spec fn sq_file_index(f: File) -> int {
    match f {
        File::A => 0,
        File::B => 1,
        File::C => 2,
        File::D => 3,
        File::E => 4,
        File::F => 5,
        File::G => 6,
        File::H => 7,
    }
}

/// The bit mask of one column: bit `i` is set exactly when square `i`
/// lies on the file with index `f`.
pub proof fn lemma_file_mask_bit(f: u64, i: u64)
    requires
        f < 8,
        i < 64,
    ensures
        bit64(0x0101010101010101u64 << f, i) == (i % 8 == f),
{
    assert(((0x0101010101010101u64 << f) & (1u64 << i) != 0) == (i % 8 == f)) by (bit_vector)
        requires
            f < 8 && i < 64,
    ;
}

impl File {
    /// This file's index, `A` = 0 through `H` = 7.
    pub fn index(self) -> (r: usize)
        ensures
            r == sq_file_index(self),
    {
        match self {
            File::A => 0,
            File::B => 1,
            File::C => 2,
            File::D => 3,
            File::E => 4,
            File::F => 5,
            File::G => 6,
            File::H => 7,
        }
    }

    /// The full column of this file as a bitboard: every square whose
    /// flat index is this file modulo eight.
    pub fn to_bitboard(self) -> (r: BitBoard)
        ensures
            forall|i: u64|
                i < 64 ==> (#[trigger] bit64(r.0, i) == (i % 8 == sq_file_index(self))),
    {
        let f = self.index() as u64;
        let r = BitBoard::new(0x0101010101010101u64 << f);
        proof {
            assert forall|i: u64| i < 64 implies (#[trigger] bit64(r.0, i) == (i % 8
                == sq_file_index(self))) by {
                lemma_file_mask_bit(f, i);
            }
        }
        r
    }

    /// Parses a file letter, accepting either case.
    pub fn try_from(file: char) -> (r: Result<File, ()>)
        ensures
            r == (if file == 'a' || file == 'A' {
                Ok::<File, ()>(File::A)
            } else if file == 'b' || file == 'B' {
                Ok::<File, ()>(File::B)
            } else if file == 'c' || file == 'C' {
                Ok::<File, ()>(File::C)
            } else if file == 'd' || file == 'D' {
                Ok::<File, ()>(File::D)
            } else if file == 'e' || file == 'E' {
                Ok::<File, ()>(File::E)
            } else if file == 'f' || file == 'F' {
                Ok::<File, ()>(File::F)
            } else if file == 'g' || file == 'G' {
                Ok::<File, ()>(File::G)
            } else if file == 'h' || file == 'H' {
                Ok::<File, ()>(File::H)
            } else {
                Err::<File, ()>(())
            }),
    {
        match file {
            'a' | 'A' => Ok(File::A),
            'b' | 'B' => Ok(File::B),
            'c' | 'C' => Ok(File::C),
            'd' | 'D' => Ok(File::D),
            'e' | 'E' => Ok(File::E),
            'f' | 'F' => Ok(File::F),
            'g' | 'G' => Ok(File::G),
            'h' | 'H' => Ok(File::H),
            _ => Err(()),
        }
    }
}

} // verus!
