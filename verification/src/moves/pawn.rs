//! Occupancy-free pawn moves: one step forward, two from the start
//! rank, and the two forward diagonals for captures.

use vstd::prelude::*;
use crate::move_generator::base::dirs_view;
use crate::moves::common::{movement_by_const, step_positions};
use crate::pieces::Side;
use crate::position::{pfile_index, prank_index, Position, Rank};

verus! {

/// The pawn's occupancy-free move table entry.
pub struct PawnMoves;

/// The pawn's forward offsets from a square: a single step in the
/// side's direction, and a double step only from the start rank.
pub open spec fn pawn_forward_offsets(p: Position, side: Side) -> Seq<(int, int)> {
    let d: int = match side {
        Side::White => 1,
        Side::Black => -1,
    };
    let start = match side {
        Side::White => p.rank == Rank::Two,
        Side::Black => p.rank == Rank::Seven,
    };
    if start {
        seq![(0, d), (0, 2 * d)]
    } else {
        seq![(0, d)]
    }
}

/// The pawn's forward targets from a square, in order.
pub open spec fn pawn_options(p: Position, side: Side) -> Seq<Position> {
    step_positions(pawn_forward_offsets(p, side), pfile_index(p.file), prank_index(p.rank))
}

/// The pawn's two capture offsets for a side.
pub open spec fn pawn_attack_offsets(side: Side) -> Seq<(int, int)> {
    match side {
        Side::White => seq![(1, 1), (-1, 1)],
        Side::Black => seq![(1, -1), (-1, -1)],
    }
}

/// The pawn's in-bounds capture targets from a square, in order.
pub open spec fn pawn_attack_options(p: Position, side: Side) -> Seq<Position> {
    step_positions(pawn_attack_offsets(side), pfile_index(p.file), prank_index(p.rank))
}

impl PawnMoves {
    /// Every square the pawn could step forward to on an empty board.
    pub fn move_options(pos: &Position, side: Side) -> (r: Vec<Position>)
        ensures
            r@ == pawn_options(*pos, side),
    {
        let mut offsets: Vec<(i8, i8)> = Vec::new();
        match side {
            Side::White => offsets.push((0, 1)),
            Side::Black => offsets.push((0, -1)),
        }
        let start = match side {
            Side::White => pos.rank.index() == 1,
            Side::Black => pos.rank.index() == 6,
        };
        if start {
            match side {
                Side::White => offsets.push((0, 2)),
                Side::Black => offsets.push((0, -2)),
            }
        }
        let r = movement_by_const(&offsets, pos);
        proof {
            assert(dirs_view(offsets@) =~= pawn_forward_offsets(*pos, side));
        }
        r
    }

    /// The two forward-diagonal squares the pawn attacks.
    pub fn attack_options(pos: &Position, side: Side) -> (r: Vec<Position>)
        ensures
            r@ == pawn_attack_options(*pos, side),
    {
        let offsets: Vec<(i8, i8)> = match side {
            Side::White => vec![(1, 1), (-1, 1)],
            Side::Black => vec![(1, -1), (-1, -1)],
        };
        let r = movement_by_const(&offsets, pos);
        proof {
            assert(dirs_view(offsets@) =~= pawn_attack_offsets(side));
        }
        r
    }
}

} // verus!
