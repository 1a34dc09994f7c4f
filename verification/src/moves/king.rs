//! Occupancy-free king moves: the eight adjacent squares.

use vstd::prelude::*;
use crate::move_generator::base::dirs_view;
use crate::moves::common::{movement_by_const, step_positions};
use crate::pieces::Side;
use crate::position::{pfile_index, prank_index, Position};

verus! {

/// The king's occupancy-free move table entry.
pub struct KingMoves;

/// The king's step offsets, as (file delta, rank delta) pairs.
pub open spec fn king_step_offsets() -> Seq<(int, int)> {
    seq![(1, 0), (-1, 0), (0, 1), (0, -1), (1, 1), (1, -1), (-1, 1), (-1, -1)]
}

/// The king's in-bounds step targets from a square, in offset order.
pub open spec fn king_options(p: Position) -> Seq<Position> {
    step_positions(king_step_offsets(), pfile_index(p.file), prank_index(p.rank))
}

impl KingMoves {
    /// Every square the king could reach on an empty board.
    pub fn move_options(pos: &Position, side: Side) -> (r: Vec<Position>)
        ensures
            r@ == king_options(*pos),
    {
        let offsets: Vec<(i8, i8)> = vec![
            (1, 0),
            (-1, 0),
            (0, 1),
            (0, -1),
            (1, 1),
            (1, -1),
            (-1, 1),
            (-1, -1),
        ];
        let r = movement_by_const(&offsets, pos);
        proof {
            assert(dirs_view(offsets@) =~= king_step_offsets());
        }
        r
    }

    /// The king attacks exactly the squares it can step to.
    pub fn attack_options(pos: &Position, side: Side) -> (r: Vec<Position>)
        ensures
            r@ == king_options(*pos),
    {
        Self::move_options(pos, side)
    }
}

} // verus!
