//! Move generation for the queen: ray casting along all eight directions.

use vstd::prelude::*;
use crate::board::Board;
use crate::location::Location;
use crate::move_generator::base::{
    dirs_view, generate_sliding_moves, sliding_moves, PieceMovementType,
};
use crate::pieces::{Piece, Side};

verus! {

/// All eight directions, orthogonals first, as (file delta, rank delta)
/// pairs.
pub open spec fn queen_directions() -> Seq<(int, int)> {
    seq![(0, 1), (0, -1), (1, 0), (-1, 0), (1, 1), (-1, -1), (1, -1), (-1, 1)]
}

/// All pseudo-legal queen moves from `l`: the concatenated ray walks of
/// all eight directions, in a fixed order.
pub open spec fn queen_moves(b: Seq<Option<Piece>>, l: Location, side: Side) -> Seq<
    PieceMovementType,
> {
    sliding_moves(b, l, side, queen_directions())
}

/// The queen's move generator.
pub struct QueenMoveGen;

impl QueenMoveGen {
    /// Generates all pseudo-legal queen moves from `loc`.
    pub fn generate_moves(board: &Board, loc: Location, side: Side) -> (r: Vec<PieceMovementType>)
        requires
            board.wf(),
        ensures
            r@ == queen_moves(board@, loc, side),
    {
        let dirs: [(i8, i8); 8] = [
            (0, 1),
            (0, -1),
            (1, 0),
            (-1, 0),
            (1, 1),
            (-1, -1),
            (1, -1),
            (-1, 1),
        ];
        let r = generate_sliding_moves(board, loc, side, &dirs);
        proof {
            assert(dirs_view(dirs@) =~= queen_directions());
        }
        r
    }
}

} // verus!
