//! Move generation for the bishop: ray casting along the four diagonals.

use vstd::prelude::*;
use crate::bits::bit64;
use crate::board::Board;
use crate::location::Location;
use crate::move_generator::base::{
    dirs_view, generate_sliding_moves, moves_to_bitboard, sliding_moves, spec_location_index,
    PieceMovementType,
};
use crate::pieces::Side;

verus! {

/// The four diagonal directions, as (file delta, rank delta) pairs.
pub open spec fn bishop_directions() -> Seq<(int, int)> {
    seq![(1, 1), (-1, -1), (1, -1), (-1, 1)]
}

/// All pseudo-legal bishop moves from `l`: the concatenated ray walks of
/// the four diagonals, in a fixed order.
pub open spec fn bishop_moves(b: Seq<Option<crate::pieces::Piece>>, l: Location, side: Side) -> Seq<
    PieceMovementType,
> {
    sliding_moves(b, l, side, bishop_directions())
}

/// The bishop's move generator.
pub struct BishopMoveGen;

impl BishopMoveGen {
    /// Generates all pseudo-legal bishop moves from `loc`.
    pub fn generate_moves(board: &Board, loc: Location, side: Side) -> (r: Vec<PieceMovementType>)
        requires
            board.wf(),
        ensures
            r@ == bishop_moves(board@, loc, side),
    {
        let dirs: [(i8, i8); 4] = [(1, 1), (-1, -1), (1, -1), (-1, 1)];
        let r = generate_sliding_moves(board, loc, side, &dirs);
        proof {
            assert(dirs_view(dirs@) =~= bishop_directions());
        }
        r
    }

    /// The same moves packed into a `u64` bitboard: bit `i` is set exactly
    /// when some bishop move targets square `i`.
    pub fn generate_moves_bitboard(board: &Board, loc: Location, side: Side) -> (r: u64)
        requires
            board.wf(),
        ensures
            forall|i: u64|
                i < 64 ==> (#[trigger] bit64(r, i) <==> exists|j: int|
                    0 <= j < bishop_moves(board@, loc, side).len()
                        && #[trigger] spec_location_index(bishop_moves(board@, loc, side)[j])
                        == Some(i as int)),
    {
        let moves = Self::generate_moves(board, loc, side);
        moves_to_bitboard(&moves)
    }
}

} // verus!
