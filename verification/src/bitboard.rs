//! A raw `u64` chessboard bitboard: bit 0 is `a1`, bit 63 is `h8`, with
//! the usual word-wise set operations and shifts.

use vstd::prelude::*;
use crate::bits::{bit64, lemma_bit_or, lemma_bit_single, lemma_bit_zero};

verus! {

/// A board set packed into a `u64`; bit 0 stands for `a1`, bit 63 for
/// `h8`.
#[derive(Copy, Clone, PartialEq, Eq, Structural, Debug)]
pub struct BitBoard(pub u64);

impl BitBoard {
    /// The set with exactly the given word's bits.
    pub fn new(v: u64) -> (r: BitBoard)
        ensures
            r.0 == v,
    {
        BitBoard(v)
    }

    /// The empty set.
    pub fn empty() -> (r: BitBoard)
        ensures
            r.0 == 0u64,
            forall|i: u64| i < 64 ==> !bit64(r.0, i),
    {
        proof {
            assert forall|i: u64| i < 64 implies !bit64(0u64, i) by {
                lemma_bit_zero(i);
            }
        }
        BitBoard(0)
    }

    /// The set mirrored end to end: bit `i` of the result is bit
    /// `63 - i` of the input.
    pub fn reverse(&self) -> (r: BitBoard)
        ensures
            forall|i: u64| i < 64 ==> (#[trigger] bit64(r.0, i) == bit64(self.0, (63 - i) as u64)),
    {
        let mut acc: u64 = 0;
        proof {
            assert forall|j: u64| j < 64 implies !bit64(0u64, j) by {
                lemma_bit_zero(j);
            }
        }
        let mut i: usize = 0;
        while i < 64
            invariant
                i <= 64,
                forall|j: u64|
                    j < 64 ==> (#[trigger] bit64(acc, j) == (63 - j < i && bit64(
                        self.0,
                        (63 - j) as u64,
                    ))),
            decreases 64 - i,
        {
            let ghost prev = acc;
            if (self.0 & (1u64 << (i as u64))) != 0 {
                acc = acc | (1u64 << ((63 - i) as u64));
            }
            proof {
                assert forall|j: u64| j < 64 implies (#[trigger] bit64(acc, j) == (63 - j < i + 1
                    && bit64(self.0, (63 - j) as u64))) by {
                    lemma_bit_or(prev, 1u64 << ((63 - i) as u64), j);
                    lemma_bit_single((63 - i) as u64, j);
                }
            }
            i = i + 1;
        }
        BitBoard(acc)
    }

    /// Whether no square is in the set.
    pub fn is_empty(&self) -> (r: bool)
        ensures
            r == (self.0 == 0u64),
    {
        self.0 == 0
    }

    /// Clears every square.
    pub fn clear(&mut self)
        ensures
            final(self).0 == 0u64,
    {
        self.0 = 0;
    }

    /// The union of two sets.
    pub fn or(self, rhs: BitBoard) -> (r: BitBoard)
        ensures
            r.0 == (self.0 | rhs.0),
    {
        BitBoard(self.0 | rhs.0)
    }

    /// The intersection of two sets.
    pub fn and(self, rhs: BitBoard) -> (r: BitBoard)
        ensures
            r.0 == (self.0 & rhs.0),
    {
        BitBoard(self.0 & rhs.0)
    }

    /// The symmetric difference of two sets.
    pub fn xor(self, rhs: BitBoard) -> (r: BitBoard)
        ensures
            r.0 == (self.0 ^ rhs.0),
    {
        BitBoard(self.0 ^ rhs.0)
    }

    /// The complement over the whole board.
    pub fn not(self) -> (r: BitBoard)
        ensures
            r.0 == !self.0,
    {
        BitBoard(!self.0)
    }

    /// Every bit shifted up by `rhs`.
    pub fn shl(self, rhs: u32) -> (r: BitBoard)
        requires
            rhs < 64,
        ensures
            r.0 == (self.0 << rhs),
    {
        BitBoard(self.0 << rhs)
    }

    /// Every bit shifted down by `rhs`.
    pub fn shr(self, rhs: u32) -> (r: BitBoard)
        requires
            rhs < 64,
        ensures
            r.0 == (self.0 >> rhs),
    {
        BitBoard(self.0 >> rhs)
    }
}

} // verus!
