//! Occupancy-free knight moves: the eight L-shaped jumps.

use vstd::prelude::*;
use crate::move_generator::base::dirs_view;
use crate::moves::common::{movement_by_const, step_positions};
use crate::pieces::Side;
use crate::position::{pfile_index, prank_index, Position};

verus! {

/// The knight's occupancy-free move table entry.
pub struct KnightMoves;

/// The knight's jump offsets, as (file delta, rank delta) pairs.
pub open spec fn knight_jump_offsets() -> Seq<(int, int)> {
    seq![(2, 1), (2, -1), (-2, 1), (-2, -1), (1, 2), (1, -2), (-1, 2), (-1, -2)]
}

/// The knight's in-bounds jump targets from a square, in offset order.
pub open spec fn knight_options(p: Position) -> Seq<Position> {
    step_positions(knight_jump_offsets(), pfile_index(p.file), prank_index(p.rank))
}

impl KnightMoves {
    /// Every square the knight could reach on an empty board.
    pub fn move_options(pos: &Position, side: Side) -> (r: Vec<Position>)
        ensures
            r@ == knight_options(*pos),
    {
        let offsets: Vec<(i8, i8)> = vec![
            (2, 1),
            (2, -1),
            (-2, 1),
            (-2, -1),
            (1, 2),
            (1, -2),
            (-1, 2),
            (-1, -2),
        ];
        let r = movement_by_const(&offsets, pos);
        proof {
            assert(dirs_view(offsets@) =~= knight_jump_offsets());
        }
        r
    }

    /// The knight attacks exactly the squares it can jump to.
    pub fn attack_options(pos: &Position, side: Side) -> (r: Vec<Position>)
        ensures
            r@ == knight_options(*pos),
    {
        Self::move_options(pos, side)
    }
}

} // verus!
