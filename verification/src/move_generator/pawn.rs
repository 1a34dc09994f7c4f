//! Move generation for pawns: single and double forward steps onto empty
//! squares, diagonal captures, and re-tagging of any move that lands on
//! the far rank as a promotion.

use vstd::prelude::*;
use crate::board::Board;
use crate::location::{file_index, loc_at, loc_index, on_board, rank_index, Location, Rank};
use crate::pieces::{Piece, Side};
use crate::move_generator::base::{move_entry_shape, PieceMovementType};

verus! {

/// The rank a pawn of the given side starts on.
pub open spec fn spec_start_rank(side: Side) -> Rank {
    match side {
        Side::White => Rank::Two,
        Side::Black => Rank::Seven,
    }
}

/// The far rank, on which any pawn move becomes a promotion.
pub open spec fn spec_promotion_rank(side: Side) -> Rank {
    match side {
        Side::White => Rank::Eight,
        Side::Black => Rank::One,
    }
}

/// The rank direction a pawn of the given side moves in.
pub open spec fn spec_move_direction(side: Side) -> int {
    match side {
        Side::White => 1,
        Side::Black => -1,
    }
}

/// The pawn's moves before promotion tagging, in order: single step,
/// double step, capture towards file `A`, capture towards file `H`.
/// A forward step needs an empty target; the double step additionally
/// needs the start rank and an empty intermediate square; a capture
/// needs an enemy occupant.
pub open spec fn pawn_pre_moves(b: Seq<Option<Piece>>, l: Location, side: Side) -> Seq<
    PieceMovementType,
> {
    let fi = file_index(l.file);
    let ri = rank_index(l.rank);
    let d = spec_move_direction(side);
    let single_sq = loc_index(loc_at(fi, ri + d));
    let double_sq = loc_index(loc_at(fi, ri + 2 * d));
    let left_sq = loc_index(loc_at(fi - 1, ri + d));
    let right_sq = loc_index(loc_at(fi + 1, ri + d));
    let single = on_board(fi, ri + d) && b[single_sq] is None;
    let double = single && l.rank == spec_start_rank(side) && on_board(fi, ri + 2 * d)
        && b[double_sq] is None;
    let cap_left = on_board(fi - 1, ri + d) && b[left_sq] is Some && (b[left_sq] -> Some_0).side
        != side;
    let cap_right = on_board(fi + 1, ri + d) && b[right_sq] is Some && (b[right_sq] -> Some_0).side
        != side;
    (if single {
        seq![PieceMovementType::Relocate(loc_at(fi, ri + d))]
    } else {
        seq![]
    }) + (if double {
        seq![PieceMovementType::Relocate(loc_at(fi, ri + 2 * d))]
    } else {
        seq![]
    }) + (if cap_left {
        seq![PieceMovementType::Capture(loc_at(fi - 1, ri + d))]
    } else {
        seq![]
    }) + (if cap_right {
        seq![PieceMovementType::Capture(loc_at(fi + 1, ri + d))]
    } else {
        seq![]
    })
}

/// Re-tags a relocation or capture landing on the far rank as a
/// promotion; every other move is kept as it is.
pub open spec fn promote_tag(m: PieceMovementType, side: Side) -> PieceMovementType {
    match m {
        PieceMovementType::Relocate(t) => if t.rank == spec_promotion_rank(side) {
            PieceMovementType::Promotion(t)
        } else {
            m
        },
        PieceMovementType::Capture(t) => if t.rank == spec_promotion_rank(side) {
            PieceMovementType::Promotion(t)
        } else {
            m
        },
        _ => m,
    }
}

/// All pseudo-legal pawn moves from `l`: the pre-moves with promotion
/// tagging applied to each entry.
pub open spec fn pawn_moves(b: Seq<Option<Piece>>, l: Location, side: Side) -> Seq<
    PieceMovementType,
> {
    pawn_pre_moves(b, l, side).map(|_i: int, m: PieceMovementType| promote_tag(m, side))
}

/// The pawn's move generator.
pub struct PawnMoveGen;

impl PawnMoveGen {
    /// The rank a pawn of the given side starts on.
    pub fn get_start_rank(side: Side) -> (r: Rank)
        ensures
            r == spec_start_rank(side),
    {
        match side {
            Side::White => Rank::Two,
            Side::Black => Rank::Seven,
        }
    }

    /// The far rank, on which any pawn move becomes a promotion.
    pub fn get_promotion_rank(side: Side) -> (r: Rank)
        ensures
            r == spec_promotion_rank(side),
    {
        match side {
            Side::White => Rank::Eight,
            Side::Black => Rank::One,
        }
    }

    /// The rank direction a pawn of the given side moves in: up for
    /// White, down for Black.
    pub fn get_move_direction(side: Side) -> (r: i8)
        ensures
            r as int == spec_move_direction(side),
    {
        match side {
            Side::White => 1,
            Side::Black => -1,
        }
    }

    /// Accepts a forward-step target: it must exist and be empty.
    pub fn check_valid_move(board: &Board, loc: Option<Location>) -> (r: Option<Location>)
        requires
            board.wf(),
        ensures
            r == match loc {
                Some(l) => if board@[loc_index(l)] is None {
                    Some(l)
                } else {
                    None
                },
                None => None::<Location>,
            },
    {
        match loc {
            Some(valid_loc) => {
                if board.get(valid_loc).is_none() {
                    Some(valid_loc)
                } else {
                    None
                }
            },
            None => None,
        }
    }

    /// Accepts a capture target: it must exist and hold an enemy piece.
    pub fn check_valid_capture(board: &Board, loc: Option<Location>, side: Side) -> (r: Option<
        Location,
    >)
        requires
            board.wf(),
        ensures
            r == match loc {
                Some(l) => if board@[loc_index(l)] is Some && (board@[loc_index(l)] -> Some_0).side
                    != side {
                    Some(l)
                } else {
                    None
                },
                None => None::<Location>,
            },
    {
        match loc {
            Some(valid_loc) => {
                match board.get(valid_loc) {
                    Some(piece) => {
                        if piece.side.index() != side.index() {
                            Some(valid_loc)
                        } else {
                            None
                        }
                    },
                    None => None,
                }
            },
            None => None,
        }
    }

    /// Generates all pseudo-legal pawn moves from `loc`, promotion
    /// tagging included.
    pub fn generate_moves(board: &Board, loc: Location, side: Side) -> (r: Vec<PieceMovementType>)
        requires
            board.wf(),
        ensures
            r@ == pawn_moves(board@, loc, side),
    {
        let mut moves: Vec<PieceMovementType> = Vec::new();
        let direction = Self::get_move_direction(side);
        let promotion_rank = Self::get_promotion_rank(side);
        let is_in_start_rank = loc.rank.index() == Self::get_start_rank(side).index();
        proof {
            assert(is_in_start_rank == (loc.rank == spec_start_rank(side)));
        }
        let single_step_loc = loc.offset(direction, 0);
        let double_step_loc = loc.offset(2 * direction, 0);
        if let Some(single_loc) = Self::check_valid_move(board, single_step_loc) {
            moves.push(PieceMovementType::Relocate(single_loc));
            if is_in_start_rank {
                if let Some(double_loc) = Self::check_valid_move(board, double_step_loc) {
                    moves.push(PieceMovementType::Relocate(double_loc));
                }
            }
        }
        if let Some(capture_loc) = Self::check_valid_capture(board, loc.offset(direction, -1), side)
             {
            moves.push(PieceMovementType::Capture(capture_loc));
        }
        if let Some(capture_loc) = Self::check_valid_capture(board, loc.offset(direction, 1), side)
             {
            moves.push(PieceMovementType::Capture(capture_loc));
        }
        proof {
            assert(moves@ =~= pawn_pre_moves(board@, loc, side));
        }
        let mut tagged: Vec<PieceMovementType> = Vec::new();
        let mut i: usize = 0;
        while i < moves.len()
            invariant
                i <= moves@.len(),
                tagged@.len() == i,
                forall|j: int| 0 <= j < i ==> tagged@[j] == promote_tag(moves@[j], side),
                promotion_rank == spec_promotion_rank(side),
            decreases moves@.len() - i,
        {
            let m = moves[i];
            let retagged = match m {
                PieceMovementType::Relocate(target) => {
                    if target.rank.index() == promotion_rank.index() {
                        PieceMovementType::Promotion(target)
                    } else {
                        m
                    }
                },
                PieceMovementType::Capture(target) => {
                    if target.rank.index() == promotion_rank.index() {
                        PieceMovementType::Promotion(target)
                    } else {
                        m
                    }
                },
                _ => m,
            };
            tagged.push(retagged);
            i = i + 1;
        }
        proof {
            assert(tagged@ =~= pawn_moves(board@, loc, side));
        }
        tagged
    }
}

/// Promotion tagging: a pawn move landing on the far rank is always
/// tagged `Promotion` — never `Relocate` or `Capture` — and a move is
/// tagged `Promotion` only when it lands on the far rank; pawns never
/// castle.
pub proof fn lemma_pawn_promotion_tagging(
    b: Seq<Option<Piece>>,
    l: Location,
    side: Side,
    j: int,
)
    requires
        0 <= j < pawn_moves(b, l, side).len(),
    ensures
        match pawn_moves(b, l, side)[j] {
            PieceMovementType::Relocate(t) => t.rank != spec_promotion_rank(side),
            PieceMovementType::Capture(t) => t.rank != spec_promotion_rank(side),
            PieceMovementType::Promotion(t) => t.rank == spec_promotion_rank(side),
            PieceMovementType::Castle(_, _) => false,
        },
{
    let pre = pawn_pre_moves(b, l, side);
    assert(pawn_moves(b, l, side)[j] == promote_tag(pre[j], side));
    assert(pre[j] is Relocate || pre[j] is Capture);
}


/// Every generated pawn move has the generated-move shape: forward
/// steps target empty squares, captures enemy-occupied ones,
/// promotions either; pawns never castle.
pub proof fn lemma_pawn_moves_shape(
    b: Seq<Option<Piece>>,
    l: Location,
    side: Side,
    j: int,
)
    requires
        0 <= j < pawn_moves(b, l, side).len(),
    ensures
        move_entry_shape(b, side, pawn_moves(b, l, side)[j]),
        !(pawn_moves(b, l, side)[j] is Castle),
{
    let pre = pawn_pre_moves(b, l, side);
    assert(pawn_moves(b, l, side)[j] == promote_tag(pre[j], side));
    assert(move_entry_shape(b, side, pre[j]));
}

} // verus!
