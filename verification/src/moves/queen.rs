//! Occupancy-free queen moves: the rook and bishop x-rays combined.

use vstd::prelude::*;
use crate::moves::common::{anti_diagonal_ray, diagonal_ray, horizontal_ray, vertical_ray,
    AntiDiagonalMovement, DiagonalMovement, HorizontalMovement, VerticalMovement};
use crate::pieces::Side;
use crate::position::Position;

verus! {

/// The queen's occupancy-free move table entry.
pub struct QueenMoves;

/// The queen's x-ray from a square: rank, file, rising diagonal,
/// falling diagonal, in that order.
pub open spec fn queen_options(p: Position) -> Seq<Position> {
    horizontal_ray(p) + vertical_ray(p) + diagonal_ray(p) + anti_diagonal_ray(p)
}

impl QueenMoves {
    /// Every square the queen could reach on an empty board.
    pub fn move_options(pos: &Position, side: Side) -> (r: Vec<Position>)
        ensures
            r@ == queen_options(*pos),
    {
        let mut r = HorizontalMovement::move_options(pos);
        let mut v = VerticalMovement::move_options(pos);
        let mut d = DiagonalMovement::move_options(pos);
        let mut a = AntiDiagonalMovement::move_options(pos);
        r.append(&mut v);
        r.append(&mut d);
        r.append(&mut a);
        r
    }

    /// The queen attacks exactly the squares it can move to.
    pub fn attack_option(pos: &Position, side: Side) -> (r: Vec<Position>)
        ensures
            r@ == queen_options(*pos),
    {
        Self::move_options(pos, side)
    }
}

} // verus!
