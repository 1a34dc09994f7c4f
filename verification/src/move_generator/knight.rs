//! Move generation for the knight: the eight L-shaped jumps, never
//! blocked by intervening pieces.

use vstd::prelude::*;
use crate::board::Board;
use crate::location::Location;
use crate::move_generator::base::{dirs_view, generate_step_moves, step_moves, PieceMovementType};
use crate::pieces::{Piece, Side};

verus! {

/// The eight knight jumps, as (file delta, rank delta) pairs.
pub open spec fn knight_offsets() -> Seq<(int, int)> {
    seq![(2, 1), (2, -1), (-2, 1), (-2, -1), (1, 2), (1, -2), (-1, 2), (-1, -2)]
}

/// All pseudo-legal knight moves from `l`: each in-bounds jump target
/// yields a relocation if empty and a capture if enemy-occupied, in a
/// fixed order.
pub open spec fn knight_moves(b: Seq<Option<Piece>>, l: Location, side: Side) -> Seq<
    PieceMovementType,
> {
    step_moves(b, l, side, knight_offsets())
}

/// The knight's move generator.
pub struct KnightMoveGen;

impl KnightMoveGen {
    /// Generates all pseudo-legal knight moves from `loc`.
    pub fn generate_moves(board: &Board, loc: Location, side: Side) -> (r: Vec<PieceMovementType>)
        requires
            board.wf(),
        ensures
            r@ == knight_moves(board@, loc, side),
    {
        let offs: [(i8, i8); 8] = [
            (2, 1),
            (2, -1),
            (-2, 1),
            (-2, -1),
            (1, 2),
            (1, -2),
            (-1, 2),
            (-1, -2),
        ];
        let r = generate_step_moves(board, loc, side, &offs);
        proof {
            assert(dirs_view(offs@) =~= knight_offsets());
        }
        r
    }
}

} // verus!
