//! Occupancy-free bishop moves: the two full diagonals through a square.

use vstd::prelude::*;
use crate::moves::common::{anti_diagonal_ray, diagonal_ray, AntiDiagonalMovement,
    DiagonalMovement};
use crate::pieces::Side;
use crate::position::Position;

verus! {

/// The bishop's occupancy-free move table entry.
pub struct BishopMoves;

/// The bishop's x-ray from a square: its rising diagonal, then its
/// falling diagonal.
pub open spec fn bishop_options(p: Position) -> Seq<Position> {
    diagonal_ray(p) + anti_diagonal_ray(p)
}

impl BishopMoves {
    /// Every square the bishop could reach on an empty board, rising
    /// diagonal first, then falling diagonal.
    pub fn move_options(pos: &Position, side: Side) -> (r: Vec<Position>)
        ensures
            r@ == bishop_options(*pos),
    {
        let mut r = DiagonalMovement::move_options(pos);
        let mut a = AntiDiagonalMovement::move_options(pos);
        r.append(&mut a);
        r
    }

    /// The bishop attacks exactly the squares it can move to.
    pub fn attack_options(pos: &Position, side: Side) -> (r: Vec<Position>)
        ensures
            r@ == bishop_options(*pos),
    {
        Self::move_options(pos, side)
    }
}

} // verus!
