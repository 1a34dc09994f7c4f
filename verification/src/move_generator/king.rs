//! Move generation for the king — the eight adjacent squares plus
//! castling — and check detection by the reverse-attack technique.

use vstd::prelude::*;
use crate::board::Board;
use crate::location::{loc_at, loc_index, rank_index, File, Location};
use crate::move_generator::base::{dirs_view, generate_step_moves, lemma_step_moves_shape,
    move_entry_shape, step_moves, PieceMovementType};
use crate::move_generator::{generate_moves, piece_moves};
use crate::pieces::{Piece, PieceType, Side};

verus! {

/// The eight king steps, as (file delta, rank delta) pairs.
pub open spec fn king_directions() -> Seq<(int, int)> {
    seq![(0, 1), (0, -1), (1, 0), (-1, 0), (1, 1), (1, -1), (-1, 1), (-1, -1)]
}

/// Whether the square with the given flat index holds a piece of type
/// `pt` that has never moved.
pub open spec fn unmoved_at(b: Seq<Option<Piece>>, sq: int, pt: PieceType) -> bool {
    &&& b[sq] is Some
    &&& (b[sq] -> Some_0).piece_type == pt
    &&& !(b[sq] -> Some_0).has_moved
}

/// The kingside castle offered from `l`, if any: the occupant of `l`
/// must be a never-moved king, the rook square on file `H` of the same
/// rank must hold a never-moved rook of the king's own side, and the
/// two squares between them must be empty. The king's target is file
/// `G`, the rook's file `F`.
pub open spec fn spec_kingside_castle(b: Seq<Option<Piece>>, l: Location) -> Option<
    PieceMovementType,
> {
    let rk = rank_index(l.rank);
    if unmoved_at(b, loc_index(l), PieceType::King) && unmoved_at(
        b,
        loc_index(loc_at(7, rk)),
        PieceType::Rook,
    ) && (b[loc_index(loc_at(7, rk))] -> Some_0).side == (b[loc_index(l)] -> Some_0).side && b[
        loc_index(loc_at(5, rk))
    ] is None && b[loc_index(loc_at(6, rk))] is None {
        Some(PieceMovementType::Castle(loc_at(6, rk), loc_at(5, rk)))
    } else {
        None
    }
}

/// The queenside castle offered from `l`, if any: as kingside, with
/// the rook of the king's own side on file `A` and the three squares
/// between them empty. The king's target is file `C`, the rook's file
/// `D`.
pub open spec fn spec_queenside_castle(b: Seq<Option<Piece>>, l: Location) -> Option<
    PieceMovementType,
> {
    let rk = rank_index(l.rank);
    if unmoved_at(b, loc_index(l), PieceType::King) && unmoved_at(
        b,
        loc_index(loc_at(0, rk)),
        PieceType::Rook,
    ) && (b[loc_index(loc_at(0, rk))] -> Some_0).side == (b[loc_index(l)] -> Some_0).side && b[
        loc_index(loc_at(1, rk))
    ] is None && b[loc_index(loc_at(2, rk))] is None && b[loc_index(loc_at(3, rk))] is None {
        Some(PieceMovementType::Castle(loc_at(2, rk), loc_at(3, rk)))
    } else {
        None
    }
}

/// An optional move as a zero- or one-element sequence.
pub open spec fn opt_move(m: Option<PieceMovementType>) -> Seq<PieceMovementType> {
    match m {
        Some(mv) => seq![mv],
        None => seq![],
    }
}

/// All pseudo-legal king moves from `l`: the eight adjacent squares
/// (relocation if empty, capture if enemy-occupied), then the kingside
/// castle if offered, then the queenside castle if offered.
pub open spec fn king_moves(b: Seq<Option<Piece>>, l: Location, side: Side) -> Seq<
    PieceMovementType,
> {
    step_moves(b, l, side, king_directions()) + opt_move(spec_kingside_castle(b, l)) + opt_move(
        spec_queenside_castle(b, l),
    )
}

/// The king's move generator, and the home of check detection.
pub struct KingMoveGen;

impl KingMoveGen {
    /// Generates all pseudo-legal king moves from `loc`, castling
    /// included. Castling is offered on occupancy and `has_moved`
    /// grounds alone; whether the king would pass through an attacked
    /// square is the legality filter's concern, not the generator's.
    pub fn generate_moves(board: &Board, loc: Location, side: Side) -> (r: Vec<PieceMovementType>)
        requires
            board.wf(),
        ensures
            r@ == king_moves(board@, loc, side),
    {
        let offs: [(i8, i8); 8] = [
            (0, 1),
            (0, -1),
            (1, 0),
            (-1, 0),
            (1, 1),
            (1, -1),
            (-1, 1),
            (-1, -1),
        ];
        let mut moves = generate_step_moves(board, loc, side, &offs);
        proof {
            assert(dirs_view(offs@) =~= king_directions());
        }
        if let Some(castling_move) = Self::king_side_castling(board, &loc) {
            moves.push(castling_move);
        }
        if let Some(castling_move) = Self::queen_side_castling(board, &loc) {
            moves.push(castling_move);
        }
        proof {
            assert(moves@ =~= king_moves(board@, loc, side));
        }
        moves
    }

    /// The kingside castle offered from `loc`, if any.
    pub fn king_side_castling(board: &Board, loc: &Location) -> (r: Option<PieceMovementType>)
        requires
            board.wf(),
        ensures
            r == spec_kingside_castle(board@, *loc),
    {
        if let Some(piece) = board.get(*loc) {
            if piece.piece_type == PieceType::King && !piece.has_moved {
                let rook_loc = Location::new(File::H, loc.rank);
                if let Some(rook) = board.get(rook_loc) {
                    if rook.piece_type == PieceType::Rook && !rook.has_moved && rook.side
                        == piece.side && board.get(
                        Location::new(File::F, loc.rank),
                    ).is_none() && board.get(Location::new(File::G, loc.rank)).is_none() {
                        let king_target = Location::new(File::G, loc.rank);
                        let rook_target = Location::new(File::F, loc.rank);
                        return Some(PieceMovementType::Castle(king_target, rook_target));
                    }
                }
            }
        }
        None
    }

    /// The queenside castle offered from `loc`, if any.
    pub fn queen_side_castling(board: &Board, loc: &Location) -> (r: Option<PieceMovementType>)
        requires
            board.wf(),
        ensures
            r == spec_queenside_castle(board@, *loc),
    {
        if let Some(piece) = board.get(*loc) {
            if piece.piece_type == PieceType::King && !piece.has_moved {
                let rook_loc = Location::new(File::A, loc.rank);
                if let Some(rook) = board.get(rook_loc) {
                    if rook.piece_type == PieceType::Rook && !rook.has_moved && rook.side
                        == piece.side && board.get(
                        Location::new(File::B, loc.rank),
                    ).is_none() && board.get(Location::new(File::C, loc.rank)).is_none()
                        && board.get(Location::new(File::D, loc.rank)).is_none() {
                        let king_target = Location::new(File::C, loc.rank);
                        let rook_target = Location::new(File::D, loc.rank);
                        return Some(PieceMovementType::Castle(king_target, rook_target));
                    }
                }
            }
        }
        None
    }
}


/// Every generated king move has the generated-move shape: steps onto
/// empty or enemy squares, and castles whose two target squares are
/// empty. A castle entry always comes from one of the two castle
/// offers.
pub proof fn lemma_king_moves_shape(b: Seq<Option<Piece>>, l: Location, side: Side, j: int)
    requires
        0 <= j < king_moves(b, l, side).len(),
    ensures
        move_entry_shape(b, side, king_moves(b, l, side)[j]),
        king_moves(b, l, side)[j] is Castle ==> (spec_kingside_castle(b, l) == Some(
            king_moves(b, l, side)[j],
        ) || spec_queenside_castle(b, l) == Some(king_moves(b, l, side)[j])),
{
    let steps = step_moves(b, l, side, king_directions());
    let ks = opt_move(spec_kingside_castle(b, l));
    if j < steps.len() {
        lemma_step_moves_shape(b, l, side, king_directions(), j);
    } else if j < steps.len() + ks.len() {
        let rk = rank_index(l.rank);
        crate::location::lemma_loc_at_coords(5, rk);
        crate::location::lemma_loc_at_coords(6, rk);
    } else {
        let rk = rank_index(l.rank);
        crate::location::lemma_loc_at_coords(2, rk);
        crate::location::lemma_loc_at_coords(3, rk);
    }
}


/// Castling gating: the kingside castle stands among the generated
/// king moves exactly when a never-moved king on `l` and a never-moved
/// rook of its own side on file `H` of its rank have only empty
/// squares between them — so occupying either in-between square, or
/// marking either piece as moved, withdraws the offer. The queenside
/// castle is gated the same way over its own squares.
pub proof fn lemma_castling_gating(b: Seq<Option<Piece>>, l: Location, side: Side)
    ensures
        king_moves(b, l, side).contains(
            PieceMovementType::Castle(
                loc_at(6, rank_index(l.rank)),
                loc_at(5, rank_index(l.rank)),
            ),
        ) <==> spec_kingside_castle(b, l) is Some,
        king_moves(b, l, side).contains(
            PieceMovementType::Castle(
                loc_at(2, rank_index(l.rank)),
                loc_at(3, rank_index(l.rank)),
            ),
        ) <==> spec_queenside_castle(b, l) is Some,
{
    let rk = rank_index(l.rank);
    let steps = step_moves(b, l, side, king_directions());
    let ks = opt_move(spec_kingside_castle(b, l));
    let qs = opt_move(spec_queenside_castle(b, l));
    let all = king_moves(b, l, side);
    crate::location::lemma_loc_at_coords(2, rk);
    crate::location::lemma_loc_at_coords(6, rk);
    let king_target = PieceMovementType::Castle(loc_at(6, rk), loc_at(5, rk));
    let queen_target = PieceMovementType::Castle(loc_at(2, rk), loc_at(3, rk));
    assert(loc_at(6, rk) != loc_at(2, rk));
    if spec_kingside_castle(b, l) is Some {
        assert(all[steps.len() as int] == king_target);
        assert(all.contains(king_target));
    } else if all.contains(king_target) {
        let j = choose|j: int| 0 <= j < all.len() && all[j] == king_target;
        if j < steps.len() {
            lemma_step_moves_shape(b, l, side, king_directions(), j);
        }
        assert(false);
    }
    if spec_queenside_castle(b, l) is Some {
        assert(all[all.len() - 1] == queen_target);
        assert(all.contains(queen_target));
    } else if all.contains(queen_target) {
        let j = choose|j: int| 0 <= j < all.len() && all[j] == queen_target;
        if j < steps.len() {
            lemma_step_moves_shape(b, l, side, king_directions(), j);
        }
        assert(false);
    }
}

/// The capture targets in `s` that actually hold an opposing piece of
/// type `pt` on board `b`, in order.
pub open spec fn capture_hits(
    b: Seq<Option<Piece>>,
    s: Seq<PieceMovementType>,
    pt: PieceType,
) -> Seq<Location>
    decreases s.len(),
{
    if s.len() == 0 {
        seq![]
    } else {
        (match s[0] {
            PieceMovementType::Capture(t) => if b[loc_index(t)] is Some && (b[loc_index(
                t,
            )] -> Some_0).piece_type == pt {
                seq![t]
            } else {
                seq![]
            },
            _ => seq![],
        }) + capture_hits(b, s.skip(1), pt)
    }
}

/// The piece types in the order the check detector tries them.
pub open spec fn piece_type_order() -> Seq<PieceType> {
    seq![
        PieceType::Pawn,
        PieceType::Rook,
        PieceType::Knight,
        PieceType::Bishop,
        PieceType::Queen,
        PieceType::King,
    ]
}

/// The attackers found by the reverse-attack walk over a list of piece
/// types: for each type `T`, the moves a piece of type `T` of the
/// king's own side would have from the king's square are generated, and
/// every capture target that holds an opposing piece of type `T` marks
/// an attacker. Capture geometry is symmetric, so these are precisely
/// the pieces attacking the square — with one edge: only `Capture`
/// tags are matched, so a probe whose capture is re-tagged `Promotion`
/// (a pawn probe landing on its far rank) marks no attacker there; the
/// position it would miss needs an enemy pawn standing on that pawn's
/// own promotion rank, which no pawn move can produce.
pub open spec fn attackers_from(
    b: Seq<Option<Piece>>,
    k_loc: Location,
    side: Side,
    pts: Seq<PieceType>,
) -> Seq<Location>
    decreases pts.len(),
{
    if pts.len() == 0 {
        seq![]
    } else {
        capture_hits(b, piece_moves(b, pts[0], k_loc, side), pts[0]) + attackers_from(
            b,
            k_loc,
            side,
            pts.skip(1),
        )
    }
}

/// The locations of the pieces attacking the occupant of `k_loc`; an
/// empty square has no attackers.
pub open spec fn spec_attackers(b: Seq<Option<Piece>>, k_loc: Location) -> Seq<Location> {
    match b[loc_index(k_loc)] {
        None => seq![],
        Some(piece) => attackers_from(b, k_loc, piece.side, piece_type_order()),
    }
}

/// Whether the occupant of `k_loc` is attacked.
pub open spec fn spec_is_checked(b: Seq<Option<Piece>>, k_loc: Location) -> bool {
    spec_attackers(b, k_loc).len() != 0
}

impl KingMoveGen {
    /// Finds the locations of every piece attacking the occupant of
    /// `k_loc`, by the reverse-attack technique; empty squares have no
    /// attackers.
    pub fn get_checked_pieces_location(k_loc: &Location, board: &Board) -> (r: Vec<Location>)
        requires
            board.wf(),
        ensures
            r@ == spec_attackers(board@, *k_loc),
    {
        let mut attack_locations: Vec<Location> = Vec::new();
        let piece = match board.get(*k_loc) {
            None => {
                return attack_locations;
            },
            Some(piece) => piece,
        };
        let pts: [PieceType; 6] = [
            PieceType::Pawn,
            PieceType::Rook,
            PieceType::Knight,
            PieceType::Bishop,
            PieceType::Queen,
            PieceType::King,
        ];
        let ghost order = piece_type_order();
        proof {
            assert(order.skip(0) =~= order);
            assert(Seq::<Location>::empty() + attackers_from(board@, *k_loc, piece.side, order)
                =~= attackers_from(board@, *k_loc, piece.side, order));
        }
        let mut ti: usize = 0;
        while ti < 6
            invariant
                board.wf(),
                ti <= 6,
                order == piece_type_order(),
                board@[loc_index(*k_loc)] == Some(piece),
                pts@ =~= order,
                spec_attackers(board@, *k_loc) == attack_locations@ + attackers_from(
                    board@,
                    *k_loc,
                    piece.side,
                    order.skip(ti as int),
                ),
            decreases 6 - ti,
        {
            let pt = pts[ti];
            let moves = generate_moves(board, pt, *k_loc, piece.side);
            let ghost before = attack_locations@;
            proof {
                assert(moves@.skip(0) =~= moves@);
            }
            let mut j: usize = 0;
            while j < moves.len()
                invariant
                    board.wf(),
                    j <= moves@.len(),
                    pt == order[ti as int],
                    moves@ == piece_moves(board@, pt, *k_loc, piece.side),
                    before + capture_hits(board@, moves@, pt) == attack_locations@ + capture_hits(
                        board@,
                        moves@.skip(j as int),
                        pt,
                    ),
                decreases moves@.len() - j,
            {
                let ghost acc_before = attack_locations@;
                match moves[j] {
                    PieceMovementType::Capture(attack_loc) => {
                        match board.get(attack_loc) {
                            Some(occupant) => {
                                if occupant.piece_type == pt {
                                    attack_locations.push(attack_loc);
                                }
                            },
                            None => {},
                        }
                    },
                    _ => {},
                }
                proof {
                    let rest = moves@.skip(j as int);
                    assert(rest[0] == moves@[j as int]);
                    assert(rest.skip(1) =~= moves@.skip(j + 1));
                    assert(acc_before + capture_hits(board@, rest, pt) == attack_locations@
                        + capture_hits(board@, moves@.skip(j + 1), pt)) by {
                        let head: Seq<Location> = match rest[0] {
                            PieceMovementType::Capture(t) => if board@[loc_index(t)] is Some && (
                            board@[loc_index(t)] -> Some_0).piece_type == pt {
                                seq![t]
                            } else {
                                seq![]
                            },
                            _ => seq![],
                        };
                        assert(capture_hits(board@, rest, pt) == head + capture_hits(
                            board@,
                            moves@.skip(j + 1),
                            pt,
                        ));
                        assert(attack_locations@ =~= acc_before + head);
                        assert((acc_before + (head + capture_hits(board@, moves@.skip(j + 1), pt)))
                            =~= ((acc_before + head) + capture_hits(board@, moves@.skip(j + 1), pt)));
                    }
                }
                j = j + 1;
            }
            proof {
                assert(moves@.skip(moves@.len() as int) =~= Seq::<PieceMovementType>::empty());
                assert(capture_hits(board@, moves@.skip(moves@.len() as int), pt) =~= Seq::<
                    Location,
                >::empty());
                assert(attack_locations@ =~= before + capture_hits(board@, moves@, pt));
                let rest = order.skip(ti as int);
                assert(rest[0] == order[ti as int]);
                assert(rest.skip(1) =~= order.skip(ti + 1));
                assert(attackers_from(board@, *k_loc, piece.side, rest) == capture_hits(
                    board@,
                    moves@,
                    pt,
                ) + attackers_from(board@, *k_loc, piece.side, order.skip(ti + 1)));
                assert((before + (capture_hits(board@, moves@, pt) + attackers_from(
                    board@,
                    *k_loc,
                    piece.side,
                    order.skip(ti + 1),
                ))) =~= (attack_locations@ + attackers_from(
                    board@,
                    *k_loc,
                    piece.side,
                    order.skip(ti + 1),
                )));
            }
            ti = ti + 1;
        }
        proof {
            assert(order.skip(6) =~= Seq::<PieceType>::empty());
            assert(attack_locations@ + attackers_from(
                board@,
                *k_loc,
                piece.side,
                order.skip(6),
            ) =~= attack_locations@);
        }
        attack_locations
    }

    /// Whether the occupant of `k_loc` is in check: some piece attacks
    /// that square. An empty square is never checked.
    pub fn is_checked(k_loc: &Location, board: &Board) -> (r: bool)
        requires
            board.wf(),
        ensures
            r == spec_is_checked(board@, *k_loc),
    {
        let attackers = Self::get_checked_pieces_location(k_loc, board);
        attackers.len() != 0
    }
}


/// Every capture hit really is one: the listed square holds a piece of
/// the probed type, reached by a capture of the probe list.
proof fn lemma_capture_hits_sound(
    b: Seq<Option<Piece>>,
    s: Seq<PieceMovementType>,
    pt: PieceType,
    i: int,
)
    requires
        0 <= i < capture_hits(b, s, pt).len(),
    ensures
        b[loc_index(capture_hits(b, s, pt)[i])] is Some,
        (b[loc_index(capture_hits(b, s, pt)[i])] -> Some_0).piece_type == pt,
        s.contains(PieceMovementType::Capture(capture_hits(b, s, pt)[i])),
    decreases s.len(),
{
    let head: Seq<Location> = match s[0] {
        PieceMovementType::Capture(t) => if b[loc_index(t)] is Some && (b[loc_index(
            t,
        )] -> Some_0).piece_type == pt {
            seq![t]
        } else {
            seq![]
        },
        _ => seq![],
    };
    if i < head.len() {
        assert(s.contains(PieceMovementType::Capture(head[0]))) by {
            assert(s[0] == PieceMovementType::Capture(head[0]));
        }
    } else {
        lemma_capture_hits_sound(b, s.skip(1), pt, i - head.len());
        let tail_hit = capture_hits(b, s.skip(1), pt)[i - head.len()];
        let j = choose|j: int|
            0 <= j < s.skip(1).len() && s.skip(1)[j] == PieceMovementType::Capture(tail_hit);
        assert(s[j + 1] == PieceMovementType::Capture(tail_hit));
    }
}

/// Every attacker found over a list of piece types comes with its
/// witnessing type: the square holds an opposing piece of some probed
/// type, and the reverse walk of that type from the king's square
/// captures it.
proof fn lemma_attackers_from_sound(
    b: Seq<Option<Piece>>,
    k_loc: Location,
    side: Side,
    pts: Seq<PieceType>,
    i: int,
)
    requires
        0 <= i < attackers_from(b, k_loc, side, pts).len(),
    ensures
        exists|n: int|
            {
                &&& 0 <= n < pts.len()
                &&& b[loc_index(attackers_from(b, k_loc, side, pts)[i])] is Some
                &&& (b[loc_index(attackers_from(b, k_loc, side, pts)[i])] -> Some_0).piece_type
                    == pts[n]
                &&& #[trigger] piece_moves(b, pts[n], k_loc, side).contains(
                    PieceMovementType::Capture(attackers_from(b, k_loc, side, pts)[i]),
                )
            },
    decreases pts.len(),
{
    let head = capture_hits(b, piece_moves(b, pts[0], k_loc, side), pts[0]);
    if i < head.len() {
        lemma_capture_hits_sound(b, piece_moves(b, pts[0], k_loc, side), pts[0], i);
        assert({
            &&& 0 <= 0 < pts.len()
            &&& b[loc_index(attackers_from(b, k_loc, side, pts)[i])] is Some
            &&& (b[loc_index(attackers_from(b, k_loc, side, pts)[i])] -> Some_0).piece_type
                == pts[0]
            &&& piece_moves(b, pts[0], k_loc, side).contains(
                PieceMovementType::Capture(attackers_from(b, k_loc, side, pts)[i]),
            )
        });
    } else {
        lemma_attackers_from_sound(b, k_loc, side, pts.skip(1), i - head.len());
        let n = choose|n: int|
            {
                &&& 0 <= n < pts.skip(1).len()
                &&& b[loc_index(attackers_from(b, k_loc, side, pts.skip(1))[i - head.len()])] is Some
                &&& (b[loc_index(
                    attackers_from(b, k_loc, side, pts.skip(1))[i - head.len()],
                )] -> Some_0).piece_type == pts.skip(1)[n]
                &&& #[trigger] piece_moves(b, pts.skip(1)[n], k_loc, side).contains(
                    PieceMovementType::Capture(
                        attackers_from(b, k_loc, side, pts.skip(1))[i - head.len()],
                    ),
                )
            };
        assert(pts[n + 1] == pts.skip(1)[n]);
        assert({
            &&& 0 <= n + 1 < pts.len()
            &&& b[loc_index(attackers_from(b, k_loc, side, pts)[i])] is Some
            &&& (b[loc_index(attackers_from(b, k_loc, side, pts)[i])] -> Some_0).piece_type == pts[
                n + 1
            ]
            &&& piece_moves(b, pts[n + 1], k_loc, side).contains(
                PieceMovementType::Capture(attackers_from(b, k_loc, side, pts)[i]),
            )
        });
    }
}

/// Soundness of the reverse-attack walk: every reported attacker
/// stands on the board with a piece type whose reverse walk from the
/// king's square captures exactly that square. Together with the
/// sliding-blocking law this is why an interposed piece silences a
/// sliding attacker: past the first occupied square a ray offers no
/// capture, so the blocked piece can no longer be reported through
/// its own geometry.
pub proof fn lemma_attackers_sound(b: Seq<Option<Piece>>, k_loc: Location, i: int)
    requires
        0 <= i < spec_attackers(b, k_loc).len(),
    ensures
        exists|pt: PieceType|
            {
                &&& b[loc_index(spec_attackers(b, k_loc)[i])] is Some
                &&& (b[loc_index(spec_attackers(b, k_loc)[i])] -> Some_0).piece_type == pt
                &&& #[trigger] piece_moves(
                    b,
                    pt,
                    k_loc,
                    (b[loc_index(k_loc)] -> Some_0).side,
                ).contains(PieceMovementType::Capture(spec_attackers(b, k_loc)[i]))
            },
{
    let side = (b[loc_index(k_loc)] -> Some_0).side;
    lemma_attackers_from_sound(b, k_loc, side, piece_type_order(), i);
    let n = choose|n: int|
        {
            &&& 0 <= n < piece_type_order().len()
            &&& b[loc_index(attackers_from(b, k_loc, side, piece_type_order())[i])] is Some
            &&& (b[loc_index(
                attackers_from(b, k_loc, side, piece_type_order())[i],
            )] -> Some_0).piece_type == piece_type_order()[n]
            &&& #[trigger] piece_moves(b, piece_type_order()[n], k_loc, side).contains(
                PieceMovementType::Capture(
                    attackers_from(b, k_loc, side, piece_type_order())[i],
                ),
            )
        };
    assert(piece_moves(b, piece_type_order()[n], k_loc, side).contains(
        PieceMovementType::Capture(spec_attackers(b, k_loc)[i]),
    ));
}

} // verus!
