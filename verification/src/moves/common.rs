//! Occupancy-free move rays for the mask representation: full lines and
//! diagonals through a square, fixed-offset step lists, and the
//! precomputed per-square slide masks built from them.

use vstd::prelude::*;
use crate::bitset::{bs_has, BoardBitSet};
use crate::move_generator::base::dirs_view;
use crate::position::{pfile_index, pos_at, pos_index, pos_on_board, prank_index, File, Position,
    Rank};

verus! {

/// The same-rank squares among the first `n` files, file order,
/// skipping the square's own file.
pub open spec fn horiz_positions(fi: int, ri: int, n: int) -> Seq<Position>
    decreases n,
{
    if n <= 0 {
        seq![]
    } else {
        horiz_positions(fi, ri, n - 1) + (if n - 1 == fi {
            seq![]
        } else {
            seq![pos_at(n - 1, ri)]
        })
    }
}

/// The same-file squares among the first `n` ranks, rank order,
/// skipping the square's own rank.
pub open spec fn vert_positions(fi: int, ri: int, n: int) -> Seq<Position>
    decreases n,
{
    if n <= 0 {
        seq![]
    } else {
        vert_positions(fi, ri, n - 1) + (if n - 1 == ri {
            seq![]
        } else {
            seq![pos_at(fi, n - 1)]
        })
    }
}

/// The on-board squares among the first `n` steps outward along
/// direction `(df, dr)`, nearest first.
pub open spec fn ray_positions(fi: int, ri: int, df: int, dr: int, n: int) -> Seq<Position>
    decreases n,
{
    if n <= 0 {
        seq![]
    } else {
        ray_positions(fi, ri, df, dr, n - 1) + (if pos_on_board(fi + n * df, ri + n * dr) {
            seq![pos_at(fi + n * df, ri + n * dr)]
        } else {
            seq![]
        })
    }
}

/// The in-bounds targets of a list of offsets, in list order.
pub open spec fn step_positions(offs: Seq<(int, int)>, fi: int, ri: int) -> Seq<Position>
    decreases offs.len(),
{
    if offs.len() == 0 {
        seq![]
    } else {
        (if pos_on_board(fi + offs[0].0, ri + offs[0].1) {
            seq![pos_at(fi + offs[0].0, ri + offs[0].1)]
        } else {
            seq![]
        }) + step_positions(offs.skip(1), fi, ri)
    }
}

/// The in-bounds targets of the given offsets from `pos`, in order.
pub fn movement_by_const(moves: &Vec<(i8, i8)>, pos: &Position) -> (r: Vec<Position>)
    ensures
        r@ == step_positions(
            dirs_view(moves@),
            pfile_index(pos.file),
            prank_index(pos.rank),
        ),
{
    let ghost full = dirs_view(moves@);
    let ghost fi = pfile_index(pos.file);
    let ghost ri = prank_index(pos.rank);
    let mut r: Vec<Position> = Vec::new();
    proof {
        assert(full.skip(0) =~= full);
        assert(Seq::<Position>::empty() + step_positions(full, fi, ri) =~= step_positions(
            full,
            fi,
            ri,
        ));
    }
    let mut i: usize = 0;
    while i < moves.len()
        invariant
            i <= moves@.len(),
            full == dirs_view(moves@),
            fi == pfile_index(pos.file),
            ri == prank_index(pos.rank),
            step_positions(full, fi, ri) == r@ + step_positions(full.skip(i as int), fi, ri),
        decreases moves@.len() - i,
    {
        let (df, dr) = moves[i];
        let ghost before = r@;
        let ghost one: Seq<Position> = if pos_on_board(fi + full[i as int].0, ri + full[
            i as int
        ].1) {
            seq![pos_at(fi + full[i as int].0, ri + full[i as int].1)]
        } else {
            seq![]
        };
        match (pos.file.offset(df), pos.rank.offset(dr)) {
            (Some(f), Some(rk)) => {
                r.push(Position { file: f, rank: rk });
            },
            _ => {},
        }
        proof {
            assert(r@ =~= before + one);
            let rest = full.skip(i as int);
            assert(rest[0] == full[i as int]);
            assert(rest.skip(1) =~= full.skip(i + 1));
            assert(step_positions(full, fi, ri) == before + (one + step_positions(
                full.skip(i + 1),
                fi,
                ri,
            )));
            assert((before + (one + step_positions(full.skip(i + 1), fi, ri))) =~= (r@
                + step_positions(full.skip(i + 1), fi, ri)));
        }
        i = i + 1;
    }
    proof {
        assert(full.skip(moves@.len() as int) =~= Seq::<(int, int)>::empty());
        assert(r@ + step_positions(full.skip(moves@.len() as int), fi, ri) =~= r@);
    }
    r
}

/// A full horizontal line through a square, the square itself left out.
pub struct HorizontalMovement;

/// A full vertical line through a square, the square itself left out.
pub struct VerticalMovement;

/// A full rising diagonal through a square, the square itself left out.
pub struct DiagonalMovement;

/// A full falling diagonal through a square, the square itself left out.
pub struct AntiDiagonalMovement;

impl HorizontalMovement {
    /// The other squares of the square's rank, file order.
    pub fn move_options(pos: &Position) -> (r: Vec<Position>)
        ensures
            r@ == horiz_positions(pfile_index(pos.file), prank_index(pos.rank), 8),
    {
        let ghost fi = pfile_index(pos.file);
        let ghost ri = prank_index(pos.rank);
        let mut r: Vec<Position> = Vec::new();
        let mut i: usize = 0;
        while i < 8
            invariant
                i <= 8,
                fi == pfile_index(pos.file),
                ri == prank_index(pos.rank),
                r@ == horiz_positions(fi, ri, i as int),
            decreases 8 - i,
        {
            let ghost before = r@;
            if i != pos.file.index() {
                r.push(Position { file: File::from_index(i), rank: pos.rank });
            }
            proof {
                assert(r@ =~= horiz_positions(fi, ri, i + 1));
            }
            i = i + 1;
        }
        r
    }
}

impl VerticalMovement {
    /// The other squares of the square's file, rank order.
    pub fn move_options(pos: &Position) -> (r: Vec<Position>)
        ensures
            r@ == vert_positions(pfile_index(pos.file), prank_index(pos.rank), 8),
    {
        let ghost fi = pfile_index(pos.file);
        let ghost ri = prank_index(pos.rank);
        let mut r: Vec<Position> = Vec::new();
        let mut i: usize = 0;
        while i < 8
            invariant
                i <= 8,
                fi == pfile_index(pos.file),
                ri == prank_index(pos.rank),
                r@ == vert_positions(fi, ri, i as int),
            decreases 8 - i,
        {
            if i != pos.rank.index() {
                r.push(Position { file: pos.file, rank: Rank::from_index(i) });
            }
            proof {
                assert(r@ =~= vert_positions(fi, ri, i + 1));
            }
            i = i + 1;
        }
        r
    }
}

/// Walks up to seven steps outward along `(df, dr)` from `pos`,
/// collecting every on-board square, nearest first.
pub fn ray_walk(pos: &Position, df: i8, dr: i8) -> (r: Vec<Position>)
    requires
        -1 <= df <= 1,
        -1 <= dr <= 1,
    ensures
        r@ == ray_positions(pfile_index(pos.file), prank_index(pos.rank), df as int, dr as int, 7),
{
    let ghost fi = pfile_index(pos.file);
    let ghost ri = prank_index(pos.rank);
    let mut r: Vec<Position> = Vec::new();
    let mut n: usize = 1;
    while n <= 7
        invariant
            1 <= n <= 8,
            fi == pfile_index(pos.file),
            ri == prank_index(pos.rank),
            -1 <= df <= 1,
            -1 <= dr <= 1,
            r@ == ray_positions(fi, ri, df as int, dr as int, n - 1),
        decreases 8 - n,
    {
        proof {
            assert(-7 <= (n as int) * (df as int) <= 7 && -7 <= (n as int) * (dr as int) <= 7)
                by (nonlinear_arith)
                requires
                    1 <= n <= 7 && -1 <= df <= 1 && -1 <= dr <= 1,
            ;
        }
        let fo: i16 = pos.file.index() as i16 + (n as i16) * (df as i16);
        let ro: i16 = pos.rank.index() as i16 + (n as i16) * (dr as i16);
        if 0 <= fo && fo < 8 && 0 <= ro && ro < 8 {
            r.push(
                Position {
                    file: File::from_index(fo as usize),
                    rank: Rank::from_index(ro as usize),
                },
            );
        }
        proof {
            assert(fo as int == fi + (n as int) * (df as int));
            assert(ro as int == ri + (n as int) * (dr as int));
            assert(r@ =~= ray_positions(fi, ri, df as int, dr as int, n as int));
        }
        n = n + 1;
    }
    r
}

impl DiagonalMovement {
    /// The other squares of the square's rising diagonal: up-right
    /// first, then down-left, each nearest first.
    pub fn move_options(pos: &Position) -> (r: Vec<Position>)
        ensures
            r@ == ray_positions(pfile_index(pos.file), prank_index(pos.rank), 1, 1, 7)
                + ray_positions(pfile_index(pos.file), prank_index(pos.rank), -1, -1, 7),
    {
        let mut r = ray_walk(pos, 1, 1);
        let mut down = ray_walk(pos, -1, -1);
        r.append(&mut down);
        r
    }
}

impl AntiDiagonalMovement {
    /// The other squares of the square's falling diagonal: up-left
    /// first, then down-right, each nearest first.
    pub fn move_options(pos: &Position) -> (r: Vec<Position>)
        ensures
            r@ == ray_positions(pfile_index(pos.file), prank_index(pos.rank), -1, 1, 7)
                + ray_positions(pfile_index(pos.file), prank_index(pos.rank), 1, -1, 7),
    {
        let mut r = ray_walk(pos, -1, 1);
        let mut down = ray_walk(pos, 1, -1);
        r.append(&mut down);
        r
    }
}

/// The horizontal x-ray of a square as a sequence.
pub open spec fn horizontal_ray(p: Position) -> Seq<Position> {
    horiz_positions(pfile_index(p.file), prank_index(p.rank), 8)
}

/// The vertical x-ray of a square as a sequence.
pub open spec fn vertical_ray(p: Position) -> Seq<Position> {
    vert_positions(pfile_index(p.file), prank_index(p.rank), 8)
}

/// The rising-diagonal x-ray of a square as a sequence.
pub open spec fn diagonal_ray(p: Position) -> Seq<Position> {
    ray_positions(pfile_index(p.file), prank_index(p.rank), 1, 1, 7) + ray_positions(
        pfile_index(p.file),
        prank_index(p.rank),
        -1,
        -1,
        7,
    )
}

/// The falling-diagonal x-ray of a square as a sequence.
pub open spec fn anti_diagonal_ray(p: Position) -> Seq<Position> {
    ray_positions(pfile_index(p.file), prank_index(p.rank), -1, 1, 7) + ray_positions(
        pfile_index(p.file),
        prank_index(p.rank),
        1,
        -1,
        7,
    )
}

/// Precomputed per-square slide masks: for every square, the set of
/// squares on its rank, its file, its rising diagonal and its falling
/// diagonal (the square itself excluded from each).
pub struct SlideMoveMasks {
    horizontal: Vec<BoardBitSet>,
    vertical: Vec<BoardBitSet>,
    diagonal: Vec<BoardBitSet>,
    anti_diagonal: Vec<BoardBitSet>,
}

impl SlideMoveMasks {
    /// Every table holds one mask per square.
    pub closed spec fn wf(self) -> bool {
        &&& self.horizontal@.len() == 64
        &&& self.vertical@.len() == 64
        &&& self.diagonal@.len() == 64
        &&& self.anti_diagonal@.len() == 64
    }

    /// The stored horizontal mask of a square.
    pub closed spec fn spec_horizontal(self, p: Position) -> BoardBitSet {
        self.horizontal@[pos_index(p)]
    }

    /// The stored vertical mask of a square.
    pub closed spec fn spec_vertical(self, p: Position) -> BoardBitSet {
        self.vertical@[pos_index(p)]
    }

    /// The stored rising-diagonal mask of a square.
    pub closed spec fn spec_diagonal(self, p: Position) -> BoardBitSet {
        self.diagonal@[pos_index(p)]
    }

    /// The stored falling-diagonal mask of a square.
    pub closed spec fn spec_anti_diagonal(self, p: Position) -> BoardBitSet {
        self.anti_diagonal@[pos_index(p)]
    }

    /// Builds the masks for every square: each mask holds exactly the
    /// squares of the corresponding x-ray through its square.
    pub fn generate() -> (r: SlideMoveMasks)
        ensures
            r.wf(),
            forall|p: Position, q: Position|
                #[trigger] bs_has(r.spec_horizontal(p), q) <==> horizontal_ray(p).contains(q),
            forall|p: Position, q: Position|
                #[trigger] bs_has(r.spec_vertical(p), q) <==> vertical_ray(p).contains(q),
            forall|p: Position, q: Position|
                #[trigger] bs_has(r.spec_diagonal(p), q) <==> diagonal_ray(p).contains(q),
            forall|p: Position, q: Position|
                #[trigger] bs_has(r.spec_anti_diagonal(p), q) <==> anti_diagonal_ray(p).contains(
                    q,
                ),
    {
        let mut horizontal: Vec<BoardBitSet> = Vec::new();
        let mut vertical: Vec<BoardBitSet> = Vec::new();
        let mut diagonal: Vec<BoardBitSet> = Vec::new();
        let mut anti_diagonal: Vec<BoardBitSet> = Vec::new();
        let mut idx: usize = 0;
        while idx < 64
            invariant
                idx <= 64,
                horizontal@.len() == idx,
                vertical@.len() == idx,
                diagonal@.len() == idx,
                anti_diagonal@.len() == idx,
                forall|p: Position, q: Position|
                    pos_index(p) < idx ==> (#[trigger] bs_has(
                        horizontal@[pos_index(p)],
                        q,
                    ) <==> horizontal_ray(p).contains(q)),
                forall|p: Position, q: Position|
                    pos_index(p) < idx ==> (#[trigger] bs_has(
                        vertical@[pos_index(p)],
                        q,
                    ) <==> vertical_ray(p).contains(q)),
                forall|p: Position, q: Position|
                    pos_index(p) < idx ==> (#[trigger] bs_has(
                        diagonal@[pos_index(p)],
                        q,
                    ) <==> diagonal_ray(p).contains(q)),
                forall|p: Position, q: Position|
                    pos_index(p) < idx ==> (#[trigger] bs_has(
                        anti_diagonal@[pos_index(p)],
                        q,
                    ) <==> anti_diagonal_ray(p).contains(q)),
            decreases 64 - idx,
        {
            let pos = Position::from_index(idx);
            let h = HorizontalMovement::move_options(&pos);
            let v = VerticalMovement::move_options(&pos);
            let d = DiagonalMovement::move_options(&pos);
            let a = AntiDiagonalMovement::move_options(&pos);
            horizontal.push(BoardBitSet::place_multiple_at(&h));
            vertical.push(BoardBitSet::place_multiple_at(&v));
            diagonal.push(BoardBitSet::place_multiple_at(&d));
            anti_diagonal.push(BoardBitSet::place_multiple_at(&a));
            proof {
                assert forall|p: Position| pos_index(p) == idx implies p == pos by {
                    crate::position::lemma_pos_index_injective(p, pos);
                }
            }
            idx = idx + 1;
        }
        SlideMoveMasks { horizontal, vertical, diagonal, anti_diagonal }
    }

    /// The horizontal mask of a square.
    pub fn horizontal(&self, pos: Position) -> (r: BoardBitSet)
        requires
            self.wf(),
        ensures
            r == self.spec_horizontal(pos),
    {
        self.horizontal[pos.position_bitboard_index()]
    }

    /// The vertical mask of a square.
    pub fn vertical(&self, pos: Position) -> (r: BoardBitSet)
        requires
            self.wf(),
        ensures
            r == self.spec_vertical(pos),
    {
        self.vertical[pos.position_bitboard_index()]
    }

    /// The rising-diagonal mask of a square.
    pub fn diagonal(&self, pos: Position) -> (r: BoardBitSet)
        requires
            self.wf(),
        ensures
            r == self.spec_diagonal(pos),
    {
        self.diagonal[pos.position_bitboard_index()]
    }

    /// The falling-diagonal mask of a square.
    pub fn anti_diagonal(&self, pos: Position) -> (r: BoardBitSet)
        requires
            self.wf(),
        ensures
            r == self.spec_anti_diagonal(pos),
    {
        self.anti_diagonal[pos.position_bitboard_index()]
    }
}

} // verus!
