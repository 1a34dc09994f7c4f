//! A 64-bit occupancy set over board positions, bit `i` standing for
//! the square with flat index `i` (`a1` = 0).

use vstd::prelude::*;
use crate::bits::{bit64, lemma_bit_and, lemma_bit_not, lemma_bit_or, lemma_bit_single,
    lemma_bit_xor, lemma_bit_zero};
use crate::position::{pos_index, Position};

verus! {

/// A set of board squares packed into a `u64`.
#[derive(Clone, Copy, PartialEq, Eq, Structural)]
pub struct BoardBitSet(pub u64);

/// Whether `s` contains the square `p`.
pub open spec fn bs_has(s: BoardBitSet, p: Position) -> bool {
    bit64(s.0, pos_index(p) as u64)
}

impl BoardBitSet {
    /// The empty set.
    pub fn empty() -> (r: BoardBitSet)
        ensures
            r.0 == 0u64,
            forall|p: Position| !bs_has(r, p),
    {
        let r = BoardBitSet(0);
        proof {
            assert forall|p: Position| !bs_has(r, p) by {
                lemma_bit_zero(pos_index(p) as u64);
            }
        }
        r
    }

    /// The set with exactly the given word's bits.
    pub fn new(v: u64) -> (r: BoardBitSet)
        ensures
            r.0 == v,
    {
        BoardBitSet(v)
    }

    /// The set holding exactly the square `pos`.
    pub fn place_at(pos: Position) -> (r: BoardBitSet)
        ensures
            r.0 == (1u64 << (pos_index(pos) as u64)),
            forall|q: Position| #[trigger] bs_has(r, q) <==> q == pos,
    {
        let r = BoardBitSet(1u64 << (pos.position_bitboard_index() as u64));
        proof {
            assert forall|q: Position| #[trigger] bs_has(r, q) <==> q == pos by {
                lemma_bit_single(pos_index(pos) as u64, pos_index(q) as u64);
                crate::position::lemma_pos_index_injective(pos, q);
            }
        }
        r
    }

    /// The set holding exactly the listed squares.
    pub fn place_multiple_at(positions: &Vec<Position>) -> (r: BoardBitSet)
        ensures
            forall|q: Position| #[trigger] bs_has(r, q) <==> positions@.contains(q),
    {
        let mut s = BoardBitSet::empty();
        let mut i: usize = 0;
        while i < positions.len()
            invariant
                i <= positions@.len(),
                forall|q: Position|
                    #[trigger] bs_has(s, q) <==> exists|j: int| 0 <= j < i && positions@[j] == q,
            decreases positions@.len() - i,
        {
            let ghost prev = s;
            let pos = positions[i];
            s = BoardBitSet(s.0 | (1u64 << (pos.position_bitboard_index() as u64)));
            proof {
                assert forall|q: Position| #[trigger] bs_has(s, q) <==> (bs_has(prev, q) || q
                    == pos) by {
                    lemma_bit_or(prev.0, 1u64 << (pos_index(pos) as u64), pos_index(q) as u64);
                    lemma_bit_single(pos_index(pos) as u64, pos_index(q) as u64);
                    crate::position::lemma_pos_index_injective(pos, q);
                }
            }
            i = i + 1;
        }
        proof {
            r_contains_proof(s, positions);
        }
        s
    }

    /// Whether the set contains the square `pos`.
    pub fn is_set(&self, pos: Position) -> (r: bool)
        ensures
            r == bs_has(*self, pos),
    {
        let index = pos.position_bitboard_index();
        (self.0 & (1u64 << (index as u64))) != 0
    }

    /// The union of two sets.
    pub fn or(self, rhs: BoardBitSet) -> (r: BoardBitSet)
        ensures
            r.0 == (self.0 | rhs.0),
            forall|q: Position| #[trigger] bs_has(r, q) <==> (bs_has(self, q) || bs_has(rhs, q)),
    {
        let r = BoardBitSet(self.0 | rhs.0);
        proof {
            assert forall|q: Position|
                #[trigger] bs_has(r, q) <==> (bs_has(self, q) || bs_has(rhs, q)) by {
                lemma_bit_or(self.0, rhs.0, pos_index(q) as u64);
            }
        }
        r
    }

    /// The intersection of two sets.
    pub fn and(self, rhs: BoardBitSet) -> (r: BoardBitSet)
        ensures
            r.0 == (self.0 & rhs.0),
            forall|q: Position| #[trigger] bs_has(r, q) <==> (bs_has(self, q) && bs_has(rhs, q)),
    {
        let r = BoardBitSet(self.0 & rhs.0);
        proof {
            assert forall|q: Position|
                #[trigger] bs_has(r, q) <==> (bs_has(self, q) && bs_has(rhs, q)) by {
                lemma_bit_and(self.0, rhs.0, pos_index(q) as u64);
            }
        }
        r
    }

    /// The symmetric difference of two sets.
    pub fn xor(self, rhs: BoardBitSet) -> (r: BoardBitSet)
        ensures
            r.0 == (self.0 ^ rhs.0),
            forall|q: Position| #[trigger] bs_has(r, q) <==> (bs_has(self, q) != bs_has(rhs, q)),
    {
        let r = BoardBitSet(self.0 ^ rhs.0);
        proof {
            assert forall|q: Position|
                #[trigger] bs_has(r, q) <==> (bs_has(self, q) != bs_has(rhs, q)) by {
                lemma_bit_xor(self.0, rhs.0, pos_index(q) as u64);
            }
        }
        r
    }

    /// The complement over the whole 64-square board.
    pub fn not(self) -> (r: BoardBitSet)
        ensures
            r.0 == !self.0,
            forall|q: Position| #[trigger] bs_has(r, q) <==> !bs_has(self, q),
    {
        let r = BoardBitSet(!self.0);
        proof {
            assert forall|q: Position| #[trigger] bs_has(r, q) <==> !bs_has(self, q) by {
                lemma_bit_not(self.0, pos_index(q) as u64);
            }
        }
        r
    }

    /// Whether no square is in the set.
    pub fn is_empty(&self) -> (r: bool)
        ensures
            r == (self.0 == 0u64),
    {
        self.0 == 0
    }
}

/// Rephrases the prefix-indexed loop fact as plain sequence membership.
proof fn r_contains_proof(s: BoardBitSet, positions: &Vec<Position>)
    requires
        forall|q: Position|
            #[trigger] bs_has(s, q) <==> exists|j: int|
                0 <= j < positions@.len() && positions@[j] == q,
    ensures
        forall|q: Position| #[trigger] bs_has(s, q) <==> positions@.contains(q),
{
}

} // verus!
