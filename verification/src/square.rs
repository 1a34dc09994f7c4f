//! Squares for the raw-bitboard representation: a file and rank pair
//! with its single-bit board mask and flat index.

pub mod file;
pub mod rank;

use vstd::prelude::*;
use crate::bitboard::BitBoard;
use crate::bits::{bit64, lemma_bit_and};
pub use crate::square::file::File;
pub use crate::square::rank::Rank;
use crate::square::file::sq_file_index;
use crate::square::rank::sq_rank_index;

verus! {

/// A square, identified by its file (column) and rank (row).
#[derive(Copy, Clone, PartialEq, Eq, Structural, Debug)]
pub struct Square {
    pub file: File,
    pub rank: Rank,
}

/// The flat index of a square, `a1` = 0 through `h8` = 63.
pub open spec fn sq_index(s: Square) -> int {
    8 * sq_rank_index(s.rank) + sq_file_index(s.file)
}

/// The file named by a character, case-insensitive.
pub open spec fn spec_file_char(c: char) -> Option<File> {
    if c == 'a' || c == 'A' {
        Some(File::A)
    } else if c == 'b' || c == 'B' {
        Some(File::B)
    } else if c == 'c' || c == 'C' {
        Some(File::C)
    } else if c == 'd' || c == 'D' {
        Some(File::D)
    } else if c == 'e' || c == 'E' {
        Some(File::E)
    } else if c == 'f' || c == 'F' {
        Some(File::F)
    } else if c == 'g' || c == 'G' {
        Some(File::G)
    } else if c == 'h' || c == 'H' {
        Some(File::H)
    } else {
        None
    }
}

/// The rank named by a digit character (`'1'` .. `'8'`).
pub open spec fn spec_rank_char(c: char) -> Option<Rank> {
    if c == '1' {
        Some(Rank::One)
    } else if c == '2' {
        Some(Rank::Two)
    } else if c == '3' {
        Some(Rank::Three)
    } else if c == '4' {
        Some(Rank::Four)
    } else if c == '5' {
        Some(Rank::Five)
    } else if c == '6' {
        Some(Rank::Six)
    } else if c == '7' {
        Some(Rank::Seven)
    } else if c == '8' {
        Some(Rank::Eight)
    } else {
        None
    }
}

impl Square {
    /// Creates a square from a file and a rank.
    pub fn new(file: File, rank: Rank) -> (r: Square)
        ensures
            r == (Square { file, rank }),
    {
        Square { file, rank }
    }

    /// This square's file.
    pub fn file(&self) -> (r: File)
        ensures
            r == self.file,
    {
        self.file
    }

    /// This square's rank.
    pub fn rank(&self) -> (r: Rank)
        ensures
            r == self.rank,
    {
        self.rank
    }

    /// The single-bit board mask of this square: the intersection of
    /// its column and row masks.
    pub fn to_bitboard(&self) -> (r: BitBoard)
        ensures
            forall|i: u64| i < 64 ==> (#[trigger] bit64(r.0, i) == (i == sq_index(*self))),
    {
        let fm = self.file.to_bitboard();
        let rm = self.rank.to_bitboard();
        let r = fm.and(rm);
        proof {
            let fi = sq_file_index(self.file);
            let ri = sq_rank_index(self.rank);
            assert forall|i: u64| i < 64 implies (#[trigger] bit64(r.0, i) == (i == sq_index(
                *self,
            ))) by {
                lemma_bit_and(fm.0, rm.0, i);
                assert((i % 8 == fi && i / 8 == ri) == (i == 8 * ri + fi));
            }
        }
        r
    }

    /// The flat index of this square.
    pub fn index(&self) -> (r: usize)
        ensures
            r == sq_index(*self),
            r < 64,
    {
        self.rank.index() * 8 + self.file.index()
    }

    /// Parses a square such as `"e4"`: exactly a file letter followed
    /// by a rank digit. Malformed text is rejected, never a panic.
    pub fn try_from(value: &str) -> (r: Result<Square, ()>)
        ensures
            ({
                let ok = value@.len() == 2 && spec_file_char(value@[0]) is Some && spec_rank_char(
                    value@[1],
                ) is Some;
                match r {
                    Ok(s) => ok && s == (Square {
                        file: spec_file_char(value@[0]) -> Some_0,
                        rank: spec_rank_char(value@[1]) -> Some_0,
                    }),
                    Err(_) => !ok,
                }
            }),
    {
        let n = value.unicode_len();
        if n != 2 {
            return Err(());
        }
        let c0 = value.get_char(0);
        let c1 = value.get_char(1);
        match (File::try_from(c0), Rank::try_from(c1)) {
            (Ok(file), Ok(rank)) => Ok(Square::new(file, rank)),
            _ => Err(()),
        }
    }
}

/// Square indices are a bijection: distinct squares have distinct
/// flat indices.
pub proof fn lemma_sq_index_injective(a: Square, b: Square)
    ensures
        sq_index(a) == sq_index(b) ==> a == b,
{
}

} // verus!
