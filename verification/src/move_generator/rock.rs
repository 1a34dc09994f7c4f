//! Move generation for the rook: ray casting along ranks and files.

use vstd::prelude::*;
use crate::board::Board;
use crate::location::Location;
use crate::move_generator::base::{
    dirs_view, generate_sliding_moves, sliding_moves, PieceMovementType,
};
use crate::pieces::{Piece, Side};

verus! {

/// The four orthogonal directions, as (file delta, rank delta) pairs.
pub open spec fn rook_directions() -> Seq<(int, int)> {
    seq![(0, 1), (0, -1), (1, 0), (-1, 0)]
}

/// All pseudo-legal rook moves from `l`: the concatenated ray walks of
/// the four orthogonals, in a fixed order.
pub open spec fn rook_moves(b: Seq<Option<Piece>>, l: Location, side: Side) -> Seq<
    PieceMovementType,
> {
    sliding_moves(b, l, side, rook_directions())
}

/// The rook's move generator.
pub struct RookMoveGen;

impl RookMoveGen {
    /// Generates all pseudo-legal rook moves from `loc`.
    pub fn generate_moves(board: &Board, loc: Location, side: Side) -> (r: Vec<PieceMovementType>)
        requires
            board.wf(),
        ensures
            r@ == rook_moves(board@, loc, side),
    {
        let dirs: [(i8, i8); 4] = [(0, 1), (0, -1), (1, 0), (-1, 0)];
        let r = generate_sliding_moves(board, loc, side, &dirs);
        proof {
            assert(dirs_view(dirs@) =~= rook_directions());
        }
        r
    }
}

} // verus!
