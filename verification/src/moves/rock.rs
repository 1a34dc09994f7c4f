//! Occupancy-free rook moves: the full rank and file through a square.

use vstd::prelude::*;
use crate::moves::common::{horizontal_ray, vertical_ray, HorizontalMovement, VerticalMovement};
use crate::pieces::Side;
use crate::position::Position;

verus! {

/// The rook's occupancy-free move table entry.
pub struct RockMoves;

/// The rook's x-ray from a square: its rank, then its file.
pub open spec fn rook_options(p: Position) -> Seq<Position> {
    horizontal_ray(p) + vertical_ray(p)
}

impl RockMoves {
    /// Every square the rook could reach on an empty board, rank
    /// squares first, then file squares.
    pub fn move_options(pos: &Position, side: Side) -> (r: Vec<Position>)
        ensures
            r@ == rook_options(*pos),
    {
        let mut r = HorizontalMovement::move_options(pos);
        let mut v = VerticalMovement::move_options(pos);
        r.append(&mut v);
        r
    }

    /// The rook attacks exactly the squares it can move to.
    pub fn attack_options(pos: &Position, side: Side) -> (r: Vec<Position>)
        ensures
            r@ == rook_options(*pos),
    {
        Self::move_options(pos, side)
    }
}

} // verus!
