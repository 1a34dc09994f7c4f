//! Precomputed move and capture tables: for every side, piece type and
//! square, the occupancy-free move and attack sets, plus the opening
//! piece-location sets.

use vstd::prelude::*;
use crate::bitset::{bs_has, BoardBitSet};
use crate::moves::{get_piece_attack, get_piece_moves, spec_piece_attack, spec_piece_moves};
use crate::pieces::{side_index, PieceType, Side};
use crate::board::pt_index;
use crate::position::{pos_at, pos_index, File, Position, Rank};

verus! {

/// The opening squares of the piece group with the given slot for a
/// side, under this table's slot order: king, queen, rooks, bishops,
/// knights, pawns.
pub open spec fn start_location_set(side: Side, slot: int, q: Position) -> bool {
    let back: int = match side {
        Side::White => 0,
        Side::Black => 7,
    };
    let pawn: int = match side {
        Side::White => 1,
        Side::Black => 6,
    };
    if slot == 0 {
        q == pos_at(4, back)
    } else if slot == 1 {
        q == pos_at(3, back)
    } else if slot == 2 {
        q == pos_at(0, back) || q == pos_at(7, back)
    } else if slot == 3 {
        q == pos_at(2, back) || q == pos_at(5, back)
    } else if slot == 4 {
        q == pos_at(1, back) || q == pos_at(6, back)
    } else {
        prank_eq(q, pawn)
    }
}

/// Whether a position sits on the rank with the given index.
pub open spec fn prank_eq(q: Position, ri: int) -> bool {
    crate::position::prank_index(q.rank) == ri
}

/// The location-table slot of a piece type: king, queen, rooks,
/// bishops, knights, pawns.
pub open spec fn spec_slot_index(pt: PieceType) -> int {
    match pt {
        PieceType::King => 0,
        PieceType::Queen => 1,
        PieceType::Rook => 2,
        PieceType::Bishop => 3,
        PieceType::Knight => 4,
        PieceType::Pawn => 5,
    }
}

/// The location-table slot of a piece type.
pub fn slot_index(pt: PieceType) -> (r: usize)
    ensures
        r == spec_slot_index(pt),
{
    match pt {
        PieceType::King => 0,
        PieceType::Queen => 1,
        PieceType::Rook => 2,
        PieceType::Bishop => 3,
        PieceType::Knight => 4,
        PieceType::Pawn => 5,
    }
}

/// The opening piece-location sets for a side, slot order: king,
/// queen, rooks, bishops, knights, pawns.
pub fn initialize_piece_locations(side: Side) -> (r: Vec<BoardBitSet>)
    ensures
        r@.len() == 6,
        forall|slot: int, q: Position|
            0 <= slot < 6 ==> (#[trigger] bs_has(r@[slot], q) <==> start_location_set(
                side,
                slot,
                q,
            )),
{
    let back = match side {
        Side::White => Rank::One,
        Side::Black => Rank::Eight,
    };
    let pawn_rank = match side {
        Side::White => Rank::Two,
        Side::Black => Rank::Seven,
    };
    let mut r: Vec<BoardBitSet> = Vec::new();
    r.push(BoardBitSet::place_at(Position::new(File::E, back)));
    r.push(BoardBitSet::place_at(Position::new(File::D, back)));
    r.push(
        BoardBitSet::place_at(Position::new(File::A, back)).or(
            BoardBitSet::place_at(Position::new(File::H, back)),
        ),
    );
    r.push(
        BoardBitSet::place_at(Position::new(File::C, back)).or(
            BoardBitSet::place_at(Position::new(File::F, back)),
        ),
    );
    r.push(
        BoardBitSet::place_at(Position::new(File::B, back)).or(
            BoardBitSet::place_at(Position::new(File::G, back)),
        ),
    );
    let mut pawns = BoardBitSet::empty();
    let mut fi: usize = 0;
    while fi < 8
        invariant
            fi <= 8,
            pawn_rank == (match side {
                Side::White => Rank::Two,
                Side::Black => Rank::Seven,
            }),
            forall|q: Position|
                #[trigger] bs_has(pawns, q) <==> (crate::position::pfile_index(q.file) < fi
                    && q.rank == pawn_rank),
        decreases 8 - fi,
    {
        let ghost prev = pawns;
        let p = Position::new(File::from_index(fi), pawn_rank);
        pawns = pawns.or(BoardBitSet::place_at(p));
        proof {
            assert forall|q: Position|
                #[trigger] bs_has(pawns, q) <==> (crate::position::pfile_index(q.file) < fi + 1
                    && q.rank == pawn_rank) by {
                if q == p {
                } else {
                }
            }
        }
        fi = fi + 1;
    }
    r.push(pawns);
    proof {
        assert forall|slot: int, q: Position| 0 <= slot < 6 implies (#[trigger] bs_has(
            r@[slot],
            q,
        ) <==> start_location_set(side, slot, q)) by {
            if slot == 5 {
            }
        }
    }
    r
}

/// Whether `entry` is exactly the option set that `func` yields for
/// square `i` (as a bit set).
pub open spec fn entry_matches<F: Fn(PieceType, &Position, Side) -> Vec<Position>>(
    func: F,
    p: PieceType,
    s: Side,
    entry: BoardBitSet,
    i: int,
) -> bool {
    exists|ps: Vec<Position>|
        {
            &&& #[trigger] call_ensures(func, (p, &pos_at(i % 8, i / 8), s), ps)
            &&& forall|q: Position| #[trigger] bs_has(entry, q) <==> ps@.contains(q)
        }
}

/// Builds, for one side and piece type, the 64 per-square option sets
/// that `options` yields.
pub fn compute_for_all_board<F: Fn(PieceType, &Position, Side) -> Vec<Position>>(
    p: PieceType,
    s: Side,
    func: F,
) -> (r: Vec<BoardBitSet>)
    requires
        forall|pt: PieceType, pos: &Position, sd: Side| #[trigger] call_requires(func, (pt, pos, sd)),
    ensures
        r@.len() == 64,
        forall|i: int| 0 <= i < 64 ==> entry_matches(func, p, s, #[trigger] r@[i], i),
{
    let mut r: Vec<BoardBitSet> = Vec::new();
    let mut idx: usize = 0;
    while idx < 64
        invariant
            idx <= 64,
            r@.len() == idx,
            forall|pt: PieceType, pos: &Position, sd: Side| #[trigger] call_requires(
                func,
                (pt, pos, sd),
            ),
            forall|i: int| 0 <= i < idx ==> entry_matches(func, p, s, #[trigger] r@[i], i),
        decreases 64 - idx,
    {
        let pos = Position::from_index(idx);
        let ps = func(p, &pos, s);
        let bits = BoardBitSet::place_multiple_at(&ps);
        r.push(bits);
        proof {
            assert(pos == pos_at(idx as int % 8, idx as int / 8));
            assert(entry_matches(func, p, s, bits, idx as int)) by {
                assert(call_ensures(func, (p, &pos_at(idx as int % 8, idx as int / 8), s), ps));
                assert(forall|q: Position| #[trigger] bs_has(bits, q) <==> ps@.contains(q));
            }
            assert(r@[idx as int] == bits);
        }
        idx = idx + 1;
    }
    r
}

/// The full precomputed tables: per side and piece type, one move set
/// and one capture set for every square, and the opening locations.
pub struct BitBoard {
    /// Move option sets, indexed side-major: `(side * 6 + piece) * 64 + square`.
    piece_movement: Vec<BoardBitSet>,
    /// Capture option sets, same indexing.
    piece_capture_movement: Vec<BoardBitSet>,
    /// Opening piece locations, indexed `side * 6 + slot`.
    piece_location: Vec<BoardBitSet>,
}

impl BitBoard {
    /// The tables hold every side, piece type and square.
    pub closed spec fn wf(self) -> bool {
        &&& self.piece_movement@.len() == 2 * 6 * 64
        &&& self.piece_capture_movement@.len() == 2 * 6 * 64
        &&& self.piece_location@.len() == 12
    }

    /// The stored move set of a side, piece type and square.
    pub closed spec fn spec_movement(self, side: Side, pt: PieceType, p: Position) -> BoardBitSet {
        self.piece_movement@[(side_index(side) * 6 + pt_index(pt)) * 64 + pos_index(p)]
    }

    /// The stored capture set of a side, piece type and square.
    pub closed spec fn spec_capture(self, side: Side, pt: PieceType, p: Position) -> BoardBitSet {
        self.piece_capture_movement@[(side_index(side) * 6 + pt_index(pt)) * 64 + pos_index(p)]
    }

    /// The stored opening locations of a side and slot.
    pub closed spec fn spec_location(self, side: Side, slot: int) -> BoardBitSet {
        self.piece_location@[side_index(side) * 6 + slot]
    }

    /// Builds the tables: for every side, piece type and square, the
    /// move set holds exactly the piece's occupancy-free move options
    /// and the capture set exactly its attack options; the location
    /// sets hold the opening squares.
    pub fn new() -> (r: BitBoard)
        ensures
            r.wf(),
            forall|side: Side, pt: PieceType, p: Position, q: Position|
                #[trigger] bs_has(r.spec_movement(side, pt, p), q) <==> spec_piece_moves(
                    pt,
                    p,
                    side,
                ).contains(q),
            forall|side: Side, pt: PieceType, p: Position, q: Position|
                #[trigger] bs_has(r.spec_capture(side, pt, p), q) <==> spec_piece_attack(
                    pt,
                    p,
                    side,
                ).contains(q),
            forall|side: Side, slot: int, q: Position|
                0 <= slot < 6 ==> (#[trigger] bs_has(r.spec_location(side, slot), q)
                    <==> start_location_set(side, slot, q)),
    {
        let sides: [Side; 2] = [Side::White, Side::Black];
        let types: [PieceType; 6] = [
            PieceType::Pawn,
            PieceType::Rook,
            PieceType::Knight,
            PieceType::Bishop,
            PieceType::Queen,
            PieceType::King,
        ];
        let mut piece_movement: Vec<BoardBitSet> = Vec::new();
        let mut piece_capture_movement: Vec<BoardBitSet> = Vec::new();
        let mut piece_location: Vec<BoardBitSet> = Vec::new();
        let mut si: usize = 0;
        while si < 2
            invariant
                si <= 2,
                piece_movement@.len() == si * 6 * 64,
                piece_capture_movement@.len() == si * 6 * 64,
                piece_location@.len() == si * 6,
                sides@ =~= seq![Side::White, Side::Black],
                types@ =~= seq![
                    PieceType::Pawn,
                    PieceType::Rook,
                    PieceType::Knight,
                    PieceType::Bishop,
                    PieceType::Queen,
                    PieceType::King,
                ],
                forall|side: Side, pt: PieceType, p: Position, q: Position|
                    (side_index(side) * 6 + pt_index(pt)) * 64 + pos_index(p)
                        < piece_movement@.len() ==> (#[trigger] bs_has(
                        piece_movement@[(side_index(side) * 6 + pt_index(pt)) * 64 + pos_index(p)],
                        q,
                    ) <==> spec_piece_moves(pt, p, side).contains(q)),
                forall|side: Side, pt: PieceType, p: Position, q: Position|
                    (side_index(side) * 6 + pt_index(pt)) * 64 + pos_index(p)
                        < piece_capture_movement@.len() ==> (#[trigger] bs_has(
                        piece_capture_movement@[(side_index(side) * 6 + pt_index(pt)) * 64
                            + pos_index(p)],
                        q,
                    ) <==> spec_piece_attack(pt, p, side).contains(q)),
                forall|side: Side, slot: int, q: Position|
                    0 <= slot < 6 && side_index(side) * 6 + slot < piece_location@.len() ==> (
                    #[trigger] bs_has(
                        piece_location@[side_index(side) * 6 + slot],
                        q,
                    ) <==> start_location_set(side, slot, q)),
            decreases 2 - si,
        {
            let side = sides[si];
            proof {
                assert(side_index(side) == si);
            }
            let mut locs = initialize_piece_locations(side);
            piece_location.append(&mut locs);
            let mut ti: usize = 0;
            while ti < 6
                invariant
                    si < 2,
                    ti <= 6,
                    side == sides@[si as int],
                    side_index(side) == si,
                    piece_movement@.len() == si * 6 * 64 + ti * 64,
                    piece_capture_movement@.len() == si * 6 * 64 + ti * 64,
                    types@ =~= seq![
                        PieceType::Pawn,
                        PieceType::Rook,
                        PieceType::Knight,
                        PieceType::Bishop,
                        PieceType::Queen,
                        PieceType::King,
                    ],
                    forall|side2: Side, pt: PieceType, p: Position, q: Position|
                        (side_index(side2) * 6 + pt_index(pt)) * 64 + pos_index(p)
                            < piece_movement@.len() ==> (#[trigger] bs_has(
                            piece_movement@[(side_index(side2) * 6 + pt_index(pt)) * 64
                                + pos_index(p)],
                            q,
                        ) <==> spec_piece_moves(pt, p, side2).contains(q)),
                    forall|side2: Side, pt: PieceType, p: Position, q: Position|
                        (side_index(side2) * 6 + pt_index(pt)) * 64 + pos_index(p)
                            < piece_capture_movement@.len() ==> (#[trigger] bs_has(
                            piece_capture_movement@[(side_index(side2) * 6 + pt_index(pt)) * 64
                                + pos_index(p)],
                            q,
                        ) <==> spec_piece_attack(pt, p, side2).contains(q)),
                decreases 6 - ti,
            {
                let pt = types[ti];
                proof {
                    assert(pt_index(pt) == ti);
                }
                let mut sq: usize = 0;
                while sq < 64
                    invariant
                        si < 2,
                        ti < 6,
                        sq <= 64,
                        side == sides@[si as int],
                        side_index(side) == si,
                        pt == types@[ti as int],
                        pt_index(pt) == ti,
                        piece_movement@.len() == si * 6 * 64 + ti * 64 + sq,
                        piece_capture_movement@.len() == si * 6 * 64 + ti * 64 + sq,
                        forall|side2: Side, pt2: PieceType, p: Position, q: Position|
                            (side_index(side2) * 6 + pt_index(pt2)) * 64 + pos_index(p)
                                < piece_movement@.len() ==> (#[trigger] bs_has(
                                piece_movement@[(side_index(side2) * 6 + pt_index(pt2)) * 64
                                    + pos_index(p)],
                                q,
                            ) <==> spec_piece_moves(pt2, p, side2).contains(q)),
                        forall|side2: Side, pt2: PieceType, p: Position, q: Position|
                            (side_index(side2) * 6 + pt_index(pt2)) * 64 + pos_index(p)
                                < piece_capture_movement@.len() ==> (#[trigger] bs_has(
                                piece_capture_movement@[(side_index(side2) * 6 + pt_index(pt2))
                                    * 64 + pos_index(p)],
                                q,
                            ) <==> spec_piece_attack(pt2, p, side2).contains(q)),
                    decreases 64 - sq,
                {
                    let pos = Position::from_index(sq);
                    let mv = get_piece_moves(pt, &pos, side);
                    let cp = get_piece_attack(pt, &pos, side);
                    piece_movement.push(BoardBitSet::place_multiple_at(&mv));
                    piece_capture_movement.push(BoardBitSet::place_multiple_at(&cp));
                    proof {
                        assert forall|p: Position| pos_index(p) == sq implies p == pos by {
                            crate::position::lemma_pos_index_injective(p, pos);
                        }
                        assert forall|side2: Side, pt2: PieceType, p: Position|
                            (side_index(side2) * 6 + pt_index(pt2)) * 64 + pos_index(p) == (si * 6
                                + ti) * 64 + sq implies side2 == side && pt2 == pt && p == pos by {
                            let a = side_index(side2) * 6 + pt_index(pt2);
                            let bb = si * 6 + ti;
                            assert(0 <= pos_index(p) < 64);
                            assert(a * 64 + pos_index(p) == bb * 64 + sq);
                            assert(a == bb && pos_index(p) == sq) by (nonlinear_arith)
                                requires
                                    a * 64 + pos_index(p) == bb * 64 + sq,
                                    0 <= pos_index(p) < 64,
                                    0 <= sq < 64,
                            ;
                            crate::position::lemma_pos_index_injective(p, pos);
                        }
                    }
                    sq = sq + 1;
                }
                ti = ti + 1;
            }
            si = si + 1;
        }
        BitBoard { piece_movement, piece_capture_movement, piece_location }
    }

    /// The move set of a side, piece type and square.
    pub fn movement(&self, side: Side, pt: PieceType, pos: Position) -> (r: BoardBitSet)
        requires
            self.wf(),
        ensures
            r == self.spec_movement(side, pt, pos),
    {
        self.piece_movement[(side.index() * 6 + pt.index()) * 64 + pos.position_bitboard_index()]
    }

    /// The capture set of a side, piece type and square.
    pub fn capture_movement(&self, side: Side, pt: PieceType, pos: Position) -> (r: BoardBitSet)
        requires
            self.wf(),
        ensures
            r == self.spec_capture(side, pt, pos),
    {
        self.piece_capture_movement[(side.index() * 6 + pt.index()) * 64
            + pos.position_bitboard_index()]
    }

    /// The opening locations of a side and slot.
    pub fn location(&self, side: Side, slot: usize) -> (r: BoardBitSet)
        requires
            self.wf(),
            slot < 6,
        ensures
            r == self.spec_location(side, slot as int),
    {
        self.piece_location[side.index() * 6 + slot]
    }
}

} // verus!
