//! Shared move-generation machinery: the move vocabulary produced by the
//! per-piece generators, ray casting for sliding pieces, and fixed-offset
//! stepping for knights and kings.

use vstd::prelude::*;
use crate::bits::{bit64, lemma_bit_or, lemma_bit_single, lemma_bit_zero};
use crate::board::Board;
use crate::location::{file_index, loc_at, loc_index, on_board, rank_index, Location};
use crate::pieces::{Piece, Side};

verus! {

/// One pseudo-legal move produced by a generator: a move onto an empty
/// square, a capture, a pawn move onto the far rank, or castling (the
/// king's and the rook's target squares).
#[derive(Debug, Clone, Copy, PartialEq, Eq, Structural)]
pub enum PieceMovementType {
    Relocate(Location),
    Capture(Location),
    Promotion(Location),
    Castle(Location, Location),
}

impl PieceMovementType {
    /// The single target square of this move, if it has one; castling
    /// involves two squares and yields `None`.
    pub fn location(&self) -> (r: Option<Location>)
        ensures
            r == spec_location(*self),
    {
        match self {
            PieceMovementType::Relocate(val) => Some(*val),
            PieceMovementType::Capture(val) => Some(*val),
            PieceMovementType::Promotion(val) => Some(*val),
            PieceMovementType::Castle(_, _) => None,
        }
    }
}

/// The single target square of a move; `None` for castling.
pub open spec fn spec_location(m: PieceMovementType) -> Option<Location> {
    match m {
        PieceMovementType::Relocate(val) => Some(val),
        PieceMovementType::Capture(val) => Some(val),
        PieceMovementType::Promotion(val) => Some(val),
        PieceMovementType::Castle(_, _) => None,
    }
}

/// A direction usable for stepping: file and rank deltas of at most one
/// square, not both zero.
pub open spec fn unit_dir(df: int, dr: int) -> bool {
    -1 <= df <= 1 && -1 <= dr <= 1 && !(df == 0 && dr == 0)
}

/// Whether the square `n` steps along direction `(df, dr)` from `l` is
/// still on the board.
pub open spec fn ray_on_board(l: Location, df: int, dr: int, n: int) -> bool {
    on_board(file_index(l.file) + n * df, rank_index(l.rank) + n * dr)
}

/// The square `n` steps along direction `(df, dr)` from `l`.
pub open spec fn ray_step(l: Location, df: int, dr: int, n: int) -> Location {
    loc_at(file_index(l.file) + n * df, rank_index(l.rank) + n * dr)
}

/// Whether every square strictly along the ray up to and including step
/// `n` is on the board and empty.
pub open spec fn ray_clear(b: Seq<Option<Piece>>, l: Location, df: int, dr: int, n: int) -> bool {
    forall|i: int|
        1 <= i <= n ==> #[trigger] ray_on_board(l, df, dr, i) && b[loc_index(
            ray_step(l, df, dr, i),
        )] is None
}

/// The moves of one outward ray walk from `l` (exclusive) with at most
/// `fuel` steps: every empty square passed yields a `Relocate` and the
/// walk goes on; the first occupied square yields a `Capture` if it holds
/// an enemy piece, nothing if it holds an own piece, and the walk stops;
/// leaving the board stops the walk.
pub open spec fn ray_moves(
    b: Seq<Option<Piece>>,
    l: Location,
    df: int,
    dr: int,
    side: Side,
    fuel: nat,
) -> Seq<PieceMovementType>
    decreases fuel,
{
    if fuel == 0 || !ray_on_board(l, df, dr, 1) {
        seq![]
    } else {
        let t = ray_step(l, df, dr, 1);
        match b[loc_index(t)] {
            None => seq![PieceMovementType::Relocate(t)] + ray_moves(
                b,
                t,
                df,
                dr,
                side,
                (fuel - 1) as nat,
            ),
            Some(p) => if p.side != side {
                seq![PieceMovementType::Capture(t)]
            } else {
                seq![]
            },
        }
    }
}

/// The complete ray walk in direction `(df, dr)`: eight steps of fuel
/// always suffice on an 8x8 board.
pub open spec fn dir_moves(
    b: Seq<Option<Piece>>,
    l: Location,
    df: int,
    dr: int,
    side: Side,
) -> Seq<PieceMovementType> {
    ray_moves(b, l, df, dr, side, 8)
}

/// The moves of a single fixed-offset step: a `Relocate` onto an empty
/// in-bounds square, a `Capture` onto an enemy-occupied one, nothing
/// otherwise.
pub open spec fn step_move(
    b: Seq<Option<Piece>>,
    l: Location,
    side: Side,
    df: int,
    dr: int,
) -> Seq<PieceMovementType> {
    let fi = file_index(l.file) + df;
    let ri = rank_index(l.rank) + dr;
    if !on_board(fi, ri) {
        seq![]
    } else {
        let t = loc_at(fi, ri);
        match b[loc_index(t)] {
            None => seq![PieceMovementType::Relocate(t)],
            Some(p) => if p.side != side {
                seq![PieceMovementType::Capture(t)]
            } else {
                seq![]
            },
        }
    }
}

/// The concatenated step moves of a list of offsets, in order.
pub open spec fn step_moves(
    b: Seq<Option<Piece>>,
    l: Location,
    side: Side,
    offs: Seq<(int, int)>,
) -> Seq<PieceMovementType>
    decreases offs.len(),
{
    if offs.len() == 0 {
        seq![]
    } else {
        step_move(b, l, side, offs[0].0, offs[0].1) + step_moves(b, l, side, offs.skip(1))
    }
}

/// The concatenated ray walks of a list of directions, in order.
pub open spec fn sliding_moves(
    b: Seq<Option<Piece>>,
    l: Location,
    side: Side,
    dirs: Seq<(int, int)>,
) -> Seq<PieceMovementType>
    decreases dirs.len(),
{
    if dirs.len() == 0 {
        seq![]
    } else {
        dir_moves(b, l, dirs[0].0, dirs[0].1, side) + sliding_moves(b, l, side, dirs.skip(1))
    }
}

/// The `(int, int)` shape of a list of `i8` offsets.
pub open spec fn dirs_view(dirs: Seq<(i8, i8)>) -> Seq<(int, int)> {
    dirs.map(|_i: int, d: (i8, i8)| (d.0 as int, d.1 as int))
}

/// Walks one ray outward from `loc` and collects its moves: empty squares
/// yield relocations and the walk continues; the first occupied square
/// yields a capture exactly when it holds an enemy piece, and stops the
/// walk; the board edge stops the walk.
#[verifier::rlimit(60)]
pub fn generate_moves_in_direction(board: &Board, loc: Location, side: Side, dx: i8, dy: i8) -> (r:
    Vec<PieceMovementType>)
    requires
        board.wf(),
        unit_dir(dx as int, dy as int),
    ensures
        r@ == dir_moves(board@, loc, dx as int, dy as int, side),
{
    let mut moves: Vec<PieceMovementType> = Vec::new();
    let mut current = loc;
    let ghost mut k: int = 0;
    loop
        invariant_except_break
            board.wf(),
            unit_dir(dx as int, dy as int),
            0 <= k <= 7,
            dx == 1 ==> file_index(current.file) == file_index(loc.file) + k,
            dx == -1 ==> file_index(current.file) == file_index(loc.file) - k,
            dx == 0 ==> file_index(current.file) == file_index(loc.file),
            dy == 1 ==> rank_index(current.rank) == rank_index(loc.rank) + k,
            dy == -1 ==> rank_index(current.rank) == rank_index(loc.rank) - k,
            dy == 0 ==> rank_index(current.rank) == rank_index(loc.rank),
            dir_moves(board@, loc, dx as int, dy as int, side) == moves@ + ray_moves(
                board@,
                current,
                dx as int,
                dy as int,
                side,
                (8 - k) as nat,
            ),
        ensures
            moves@ == dir_moves(board@, loc, dx as int, dy as int, side),
        decreases 8 - k,
    {
        match current.offset(dy, dx) {
            None => {
                proof {
                    assert(ray_moves(board@, current, dx as int, dy as int, side, (8 - k) as nat)
                        =~= seq![]);
                    assert(moves@ + seq![] =~= moves@);
                }
                break ;
            },
            Some(next) => {
                proof {
                    assert(next == ray_step(current, dx as int, dy as int, 1));
                }
                let ghost before = moves@;
                match board.get(next) {
                    None => {
                        moves.push(PieceMovementType::Relocate(next));
                        proof {
                            let rest = ray_moves(
                                board@,
                                next,
                                dx as int,
                                dy as int,
                                side,
                                (8 - k - 1) as nat,
                            );
                            assert(ray_moves(
                                board@,
                                current,
                                dx as int,
                                dy as int,
                                side,
                                (8 - k) as nat,
                            ) == seq![PieceMovementType::Relocate(next)] + rest);
                            assert((before + (seq![PieceMovementType::Relocate(next)] + rest))
                                =~= (moves@ + rest));
                            k = k + 1;
                        }
                        current = next;
                    },
                    Some(p) => {
                        if p.side.index() != side.index() {
                            moves.push(PieceMovementType::Capture(next));
                            proof {
                                assert(ray_moves(
                                    board@,
                                    current,
                                    dx as int,
                                    dy as int,
                                    side,
                                    (8 - k) as nat,
                                ) =~= seq![PieceMovementType::Capture(next)]);
                                assert((before + seq![PieceMovementType::Capture(next)]) =~= moves@);
                            }
                            break ;
                        } else {
                            proof {
                                assert(p.side == side);
                                assert(ray_moves(
                                    board@,
                                    current,
                                    dx as int,
                                    dy as int,
                                    side,
                                    (8 - k) as nat,
                                ) =~= seq![]);
                                assert(moves@ + seq![] =~= moves@);
                            }
                            break ;
                        }
                    },
                }
            },
        }
    }
    moves
}

/// Collects the ray walks of every direction in `dirs`, in order.
pub fn generate_sliding_moves<const N: usize>(
    board: &Board,
    loc: Location,
    side: Side,
    directions: &[(i8, i8); N],
) -> (r: Vec<PieceMovementType>)
    requires
        board.wf(),
        forall|j: int|
            0 <= j < N ==> unit_dir(directions@[j].0 as int, #[trigger] directions@[j].1 as int),
    ensures
        r@ == sliding_moves(board@, loc, side, dirs_view(directions@)),
{
    let ghost full = dirs_view(directions@);
    let mut moves: Vec<PieceMovementType> = Vec::new();
    proof {
        assert(full.skip(0) =~= full);
        assert(Seq::<PieceMovementType>::empty() + sliding_moves(board@, loc, side, full)
            =~= sliding_moves(board@, loc, side, full));
    }
    let mut i: usize = 0;
    while i < N
        invariant
            board.wf(),
            i <= N,
            full == dirs_view(directions@),
            full.len() == N,
            forall|j: int| 0 <= j < N ==> unit_dir(full[j].0, #[trigger] full[j].1),
            sliding_moves(board@, loc, side, full) == moves@ + sliding_moves(
                board@,
                loc,
                side,
                full.skip(i as int),
            ),
        decreases N - i,
    {
        let (dx, dy) = directions[i];
        let dir = generate_moves_in_direction(board, loc, side, dx, dy);
        let ghost before = moves@;
        let mut dir_mut = dir;
        moves.append(&mut dir_mut);
        proof {
            let rest = full.skip(i as int);
            assert(rest[0] == full[i as int]);
            assert(rest.skip(1) =~= full.skip(i + 1));
            assert(sliding_moves(board@, loc, side, rest) == dir_moves(
                board@,
                loc,
                full[i as int].0,
                full[i as int].1,
                side,
            ) + sliding_moves(board@, loc, side, full.skip(i + 1)));
            assert((before + (dir_moves(board@, loc, full[i as int].0, full[i as int].1, side)
                + sliding_moves(board@, loc, side, full.skip(i + 1)))) =~= (moves@ + sliding_moves(
                board@,
                loc,
                side,
                full.skip(i + 1),
            )));
        }
        i = i + 1;
    }
    proof {
        assert(full.skip(N as int) =~= Seq::<(int, int)>::empty());
        assert(moves@ + sliding_moves(board@, loc, side, full.skip(N as int)) =~= moves@);
    }
    moves
}

/// Collects the single-step moves of every offset in `offs`, in order.
pub fn generate_step_moves<const N: usize>(
    board: &Board,
    loc: Location,
    side: Side,
    offs: &[(i8, i8); N],
) -> (r: Vec<PieceMovementType>)
    requires
        board.wf(),
    ensures
        r@ == step_moves(board@, loc, side, dirs_view(offs@)),
{
    let ghost full = dirs_view(offs@);
    let mut moves: Vec<PieceMovementType> = Vec::new();
    proof {
        assert(full.skip(0) =~= full);
        assert(Seq::<PieceMovementType>::empty() + step_moves(board@, loc, side, full)
            =~= step_moves(board@, loc, side, full));
    }
    let mut i: usize = 0;
    while i < N
        invariant
            board.wf(),
            i <= N,
            full == dirs_view(offs@),
            full.len() == N,
            step_moves(board@, loc, side, full) == moves@ + step_moves(
                board@,
                loc,
                side,
                full.skip(i as int),
            ),
        decreases N - i,
    {
        let (dx, dy) = offs[i];
        let ghost before = moves@;
        let ghost one = step_move(board@, loc, side, dx as int, dy as int);
        match loc.offset(dy, dx) {
            Some(target) => {
                match board.get(target) {
                    None => {
                        moves.push(PieceMovementType::Relocate(target));
                    },
                    Some(p) => {
                        if p.side.index() != side.index() {
                            moves.push(PieceMovementType::Capture(target));
                        }
                    },
                }
            },
            None => {},
        }
        proof {
            assert(moves@ =~= before + one);
            let rest = full.skip(i as int);
            assert(rest[0] == full[i as int]);
            assert(rest.skip(1) =~= full.skip(i + 1));
            assert(step_moves(board@, loc, side, rest) == one + step_moves(
                board@,
                loc,
                side,
                full.skip(i + 1),
            ));
            assert((before + (one + step_moves(board@, loc, side, full.skip(i + 1)))) =~= (moves@
                + step_moves(board@, loc, side, full.skip(i + 1))));
        }
        i = i + 1;
    }
    proof {
        assert(full.skip(N as int) =~= Seq::<(int, int)>::empty());
        assert(moves@ + step_moves(board@, loc, side, full.skip(N as int)) =~= moves@);
    }
    moves
}

/// Flat square index of a move's single target; `None` for castling.
pub open spec fn spec_location_index(m: PieceMovementType) -> Option<int> {
    match spec_location(m) {
        Some(t) => Some(loc_index(t)),
        None => None,
    }
}

/// Packs the single-square targets of a move list into a `u64` bitboard:
/// bit `i` is set exactly when some move in the list targets square `i`.
/// Castling moves carry no single target and set no bit.
pub fn moves_to_bitboard(moves: &Vec<PieceMovementType>) -> (r: u64)
    ensures
        forall|i: u64|
            i < 64 ==> (#[trigger] bit64(r, i) <==> exists|j: int|
                0 <= j < moves@.len() && #[trigger] spec_location_index(moves@[j]) == Some(
                    i as int,
                )),
{
    let mut r: u64 = 0;
    proof {
        assert forall|i: u64| i < 64 implies !bit64(0u64, i) by {
            lemma_bit_zero(i);
        }
    }
    let mut j: usize = 0;
    while j < moves.len()
        invariant
            j <= moves@.len(),
            forall|i: u64|
                i < 64 ==> (#[trigger] bit64(r, i) <==> exists|j2: int|
                    0 <= j2 < j && #[trigger] spec_location_index(moves@[j2]) == Some(i as int)),
        decreases moves@.len() - j,
    {
        let ghost prev = r;
        match moves[j].location() {
            Some(t) => {
                let bit = t.to_bit_index();
                r = r | (1u64 << (bit as u64));
                proof {
                    assert forall|i: u64| i < 64 implies (#[trigger] bit64(r, i) <==> (bit64(
                        prev,
                        i,
                    ) || i == bit)) by {
                        lemma_bit_or(prev, 1u64 << (bit as u64), i);
                        lemma_bit_single(bit as u64, i);
                    }
                    assert(spec_location_index(moves@[j as int]) == Some(bit as int));
                }
            },
            None => {},
        }
        j = j + 1;
    }
    r
}


/// Distinct on-board steps along one direction land on distinct squares.
pub proof fn lemma_ray_step_injective(l: Location, df: int, dr: int, n: int, m: int)
    requires
        unit_dir(df, dr),
        ray_on_board(l, df, dr, n),
        ray_on_board(l, df, dr, m),
        ray_step(l, df, dr, n) == ray_step(l, df, dr, m),
    ensures
        n == m,
{
    let fi = file_index(l.file);
    let ri = rank_index(l.rank);
    crate::location::lemma_loc_at_coords(fi + n * df, ri + n * dr);
    crate::location::lemma_loc_at_coords(fi + m * df, ri + m * dr);
    assert(n * df == m * df && n * dr == m * dr);
    if df == 1 || df == -1 {
        assert(n == m) by (nonlinear_arith)
            requires
                n * df == m * df && (df == 1 || df == -1),
        ;
    } else {
        assert(n == m) by (nonlinear_arith)
            requires
                n * dr == m * dr && (dr == 1 || dr == -1),
        ;
    }
}

/// The exact shape of a blocked ray walk: with every square strictly
/// before step `k` free and a piece standing on step `k`, the walk is
/// the relocations at distances `1 .. k-1` followed by a capture at `k`
/// exactly when the blocker is an enemy piece.
#[verifier::rlimit(100)]
#[verifier::spinoff_prover]
pub proof fn lemma_ray_structure(
    b: Seq<Option<Piece>>,
    l: Location,
    df: int,
    dr: int,
    side: Side,
    k: int,
    fuel: nat,
)
    requires
        unit_dir(df, dr),
        1 <= k <= fuel,
        ray_clear(b, l, df, dr, k - 1),
        ray_on_board(l, df, dr, k),
        b[loc_index(ray_step(l, df, dr, k))] is Some,
    ensures
        ray_moves(b, l, df, dr, side, fuel) == Seq::new(
            (k - 1) as nat,
            |i: int| PieceMovementType::Relocate(ray_step(l, df, dr, i + 1)),
        ) + (if (b[loc_index(ray_step(l, df, dr, k))] -> Some_0).side != side {
            seq![PieceMovementType::Capture(ray_step(l, df, dr, k))]
        } else {
            seq![]
        }),
    decreases k,
{
    let fi = file_index(l.file);
    let ri = rank_index(l.rank);
    let relocs = Seq::new(
        (k - 1) as nat,
        |i: int| PieceMovementType::Relocate(ray_step(l, df, dr, i + 1)),
    );
    if k == 1 {
        assert(ray_on_board(l, df, dr, 1));
        assert(relocs =~= Seq::<PieceMovementType>::empty());
        if (b[loc_index(ray_step(l, df, dr, k))] -> Some_0).side != side {
            assert(ray_moves(b, l, df, dr, side, fuel) =~= relocs + seq![
                PieceMovementType::Capture(ray_step(l, df, dr, 1)),
            ]);
        } else {
            assert(ray_moves(b, l, df, dr, side, fuel) =~= relocs + Seq::<
                PieceMovementType,
            >::empty());
        }
    } else {
        assert(ray_on_board(l, df, dr, 1) && b[loc_index(ray_step(l, df, dr, 1))] is None);
        let t = ray_step(l, df, dr, 1);
        crate::location::lemma_loc_at_coords(fi + 1 * df, ri + 1 * dr);
        assert(file_index(t.file) == fi + df && rank_index(t.rank) == ri + dr);
        assert forall|n: int| true implies #[trigger] ray_step(t, df, dr, n) == ray_step(
            l,
            df,
            dr,
            n + 1,
        ) && ray_on_board(t, df, dr, n) == ray_on_board(l, df, dr, n + 1) by {
            assert(fi + df + n * df == fi + (n + 1) * df) by (nonlinear_arith);
            assert(ri + dr + n * dr == ri + (n + 1) * dr) by (nonlinear_arith);
        }
        assert(ray_clear(b, t, df, dr, k - 2)) by {
            assert forall|i: int| 1 <= i <= k - 2 implies #[trigger] ray_on_board(t, df, dr, i)
                && b[loc_index(ray_step(t, df, dr, i))] is None by {
                assert(ray_on_board(l, df, dr, i + 1) && b[loc_index(
                    ray_step(l, df, dr, i + 1),
                )] is None);
            }
        }
        lemma_ray_structure(b, t, df, dr, side, k - 1, (fuel - 1) as nat);
        let relocs_t = Seq::new(
            (k - 2) as nat,
            |i: int| PieceMovementType::Relocate(ray_step(t, df, dr, i + 1)),
        );
        assert(ray_moves(b, l, df, dr, side, fuel) == seq![PieceMovementType::Relocate(t)]
            + ray_moves(b, t, df, dr, side, (fuel - 1) as nat));
        assert(relocs =~= seq![PieceMovementType::Relocate(t)] + relocs_t);
        let cap = if (b[loc_index(ray_step(l, df, dr, k))] -> Some_0).side != side {
            seq![PieceMovementType::Capture(ray_step(l, df, dr, k))]
        } else {
            seq![]
        };
        assert((seq![PieceMovementType::Relocate(t)] + (relocs_t + cap)) =~= ((seq![
            PieceMovementType::Relocate(t),
        ] + relocs_t) + cap));
    }
}

/// The blocked-ray hypotheses of the sliding-blocking law, bundled:
/// every square strictly before step `k` on the ray is free and a
/// piece stands on step `k`.
pub open spec fn blocked_ray(
    b: Seq<Option<Piece>>,
    l: Location,
    df: int,
    dr: int,
    k: int,
) -> bool {
    &&& unit_dir(df, dr)
    &&& 1 <= k
    &&& ray_clear(b, l, df, dr, k - 1)
    &&& ray_on_board(l, df, dr, k)
    &&& b[loc_index(ray_step(l, df, dr, k))] is Some
}

/// On an 8x8 board a blocked ray's blocker is at most seven steps out.
proof fn lemma_blocked_ray_bound(b: Seq<Option<Piece>>, l: Location, df: int, dr: int, k: int)
    requires
        blocked_ray(b, l, df, dr, k),
    ensures
        k <= 7,
{
    let fi = file_index(l.file);
    let ri = rank_index(l.rank);
    if df == 1 || df == -1 {
        assert(0 <= fi + k * df < 8 && 0 <= fi < 8);
        assert(k <= 7) by (nonlinear_arith)
            requires
                0 <= fi + k * df < 8 && 0 <= fi < 8 && (df == 1 || df == -1) && k >= 1,
        ;
    } else {
        assert(0 <= ri + k * dr < 8 && 0 <= ri < 8);
        assert(k <= 7) by (nonlinear_arith)
            requires
                0 <= ri + k * dr < 8 && 0 <= ri < 8 && (dr == 1 || dr == -1) && k >= 1,
        ;
    }
}

/// Sliding-move blocking, relocations: with a piece standing at
/// distance `k` along a ray and every nearer square free, the ray walk
/// offers a relocation to every square at distance below `k` and to
/// none at distance `k` or beyond.
#[verifier::rlimit(100)]
#[verifier::spinoff_prover]
pub proof fn lemma_sliding_blocking_relocates(
    b: Seq<Option<Piece>>,
    l: Location,
    df: int,
    dr: int,
    side: Side,
    k: int,
)
    requires
        blocked_ray(b, l, df, dr, k),
    ensures
        forall|n: int|
            1 <= n < k ==> dir_moves(b, l, df, dr, side).contains(
                PieceMovementType::Relocate(ray_step(l, df, dr, n)),
            ),
        forall|n: int|
            k <= n && ray_on_board(l, df, dr, n) ==> !dir_moves(b, l, df, dr, side).contains(
                PieceMovementType::Relocate(ray_step(l, df, dr, n)),
            ),
{
    lemma_blocked_ray_bound(b, l, df, dr, k);
    lemma_ray_structure(b, l, df, dr, side, k, 8);
    let s = dir_moves(b, l, df, dr, side);
    let relocs = Seq::new(
        (k - 1) as nat,
        |i: int| PieceMovementType::Relocate(ray_step(l, df, dr, i + 1)),
    );
    assert forall|n: int| 1 <= n < k implies s.contains(
        PieceMovementType::Relocate(ray_step(l, df, dr, n)),
    ) by {
        assert(s[n - 1] == relocs[n - 1]);
    }
    assert forall|n: int| k <= n && ray_on_board(l, df, dr, n) implies !s.contains(
        PieceMovementType::Relocate(ray_step(l, df, dr, n)),
    ) by {
        if s.contains(PieceMovementType::Relocate(ray_step(l, df, dr, n))) {
            let idx = choose|idx: int|
                0 <= idx < s.len() && s[idx] == PieceMovementType::Relocate(
                    ray_step(l, df, dr, n),
                );
            assert(idx < k - 1);
            assert(s[idx] == relocs[idx]);
            assert(ray_step(l, df, dr, idx + 1) == ray_step(l, df, dr, n));
            assert(ray_on_board(l, df, dr, idx + 1));
            lemma_ray_step_injective(l, df, dr, idx + 1, n);
        }
    }
}

/// Sliding-move blocking, captures: with a piece standing at distance
/// `k` along a ray and every nearer square free, the ray walk offers a
/// capture at distance `k` exactly when the blocker is an enemy piece,
/// and no capture at any other distance.
#[verifier::rlimit(100)]
#[verifier::spinoff_prover]
pub proof fn lemma_sliding_blocking_captures(
    b: Seq<Option<Piece>>,
    l: Location,
    df: int,
    dr: int,
    side: Side,
    k: int,
)
    requires
        blocked_ray(b, l, df, dr, k),
    ensures
        (b[loc_index(ray_step(l, df, dr, k))] -> Some_0).side != side <==> dir_moves(
            b,
            l,
            df,
            dr,
            side,
        ).contains(PieceMovementType::Capture(ray_step(l, df, dr, k))),
        forall|n: int|
            1 <= n && n != k && ray_on_board(l, df, dr, n) ==> !dir_moves(
                b,
                l,
                df,
                dr,
                side,
            ).contains(PieceMovementType::Capture(ray_step(l, df, dr, n))),
{
    lemma_blocked_ray_bound(b, l, df, dr, k);
    lemma_ray_structure(b, l, df, dr, side, k, 8);
    let s = dir_moves(b, l, df, dr, side);
    let relocs = Seq::new(
        (k - 1) as nat,
        |i: int| PieceMovementType::Relocate(ray_step(l, df, dr, i + 1)),
    );
    if (b[loc_index(ray_step(l, df, dr, k))] -> Some_0).side != side {
        assert(s[k - 1] == PieceMovementType::Capture(ray_step(l, df, dr, k)));
        assert(s.contains(PieceMovementType::Capture(ray_step(l, df, dr, k))));
    } else {
        assert(s.len() == k - 1);
        if s.contains(PieceMovementType::Capture(ray_step(l, df, dr, k))) {
            let idx = choose|idx: int|
                0 <= idx < s.len() && s[idx] == PieceMovementType::Capture(ray_step(l, df, dr, k));
            assert(s[idx] == relocs[idx]);
            assert(false);
        }
    }
    assert forall|n: int| 1 <= n && n != k && ray_on_board(l, df, dr, n) implies !s.contains(
        PieceMovementType::Capture(ray_step(l, df, dr, n)),
    ) by {
        if s.contains(PieceMovementType::Capture(ray_step(l, df, dr, n))) {
            let idx = choose|idx: int|
                0 <= idx < s.len() && s[idx] == PieceMovementType::Capture(ray_step(l, df, dr, n));
            if idx < k - 1 {
                assert(s[idx] == relocs[idx]);
                assert(false);
            } else {
                assert(s[idx] == PieceMovementType::Capture(ray_step(l, df, dr, k)));
                assert(ray_step(l, df, dr, n) == ray_step(l, df, dr, k));
                lemma_ray_step_injective(l, df, dr, n, k);
            }
        }
    }
}


/// What a generated move says about its target square in the board it
/// was generated from: a relocation targets an empty square, a capture
/// an enemy-occupied one, a promotion either, and a castle two empty
/// squares.
pub open spec fn move_entry_shape(b: Seq<Option<Piece>>, side: Side, m: PieceMovementType) -> bool {
    match m {
        PieceMovementType::Relocate(t) => b[loc_index(t)] is None,
        PieceMovementType::Capture(t) => b[loc_index(t)] is Some && (b[loc_index(t)] -> Some_0).side
            != side,
        PieceMovementType::Promotion(t) => b[loc_index(t)] is None || (b[loc_index(
            t,
        )] -> Some_0).side != side,
        PieceMovementType::Castle(kt, rt) => b[loc_index(kt)] is None && b[loc_index(rt)] is None,
    }
}

/// Every entry of a ray walk has the shape above, and none is a castle.
pub proof fn lemma_ray_moves_shape(
    b: Seq<Option<Piece>>,
    l: Location,
    df: int,
    dr: int,
    side: Side,
    fuel: nat,
    j: int,
)
    requires
        0 <= j < ray_moves(b, l, df, dr, side, fuel).len(),
    ensures
        move_entry_shape(b, side, ray_moves(b, l, df, dr, side, fuel)[j]),
        !(ray_moves(b, l, df, dr, side, fuel)[j] is Castle),
    decreases fuel,
{
    let s = ray_moves(b, l, df, dr, side, fuel);
    if fuel == 0 || !ray_on_board(l, df, dr, 1) {
    } else {
        let t = ray_step(l, df, dr, 1);
        match b[loc_index(t)] {
            None => {
                if j > 0 {
                    lemma_ray_moves_shape(b, t, df, dr, side, (fuel - 1) as nat, j - 1);
                }
            },
            Some(p) => {},
        }
    }
}

/// Every entry of a step-move list has the shape above, and none is a
/// castle.
pub proof fn lemma_step_moves_shape(
    b: Seq<Option<Piece>>,
    l: Location,
    side: Side,
    offs: Seq<(int, int)>,
    j: int,
)
    requires
        0 <= j < step_moves(b, l, side, offs).len(),
    ensures
        move_entry_shape(b, side, step_moves(b, l, side, offs)[j]),
        !(step_moves(b, l, side, offs)[j] is Castle),
    decreases offs.len(),
{
    let head = step_move(b, l, side, offs[0].0, offs[0].1);
    if j >= head.len() {
        lemma_step_moves_shape(b, l, side, offs.skip(1), j - head.len());
    }
}

/// Every entry of a sliding-move list has the shape above, and none is
/// a castle.
pub proof fn lemma_sliding_moves_shape(
    b: Seq<Option<Piece>>,
    l: Location,
    side: Side,
    dirs: Seq<(int, int)>,
    j: int,
)
    requires
        0 <= j < sliding_moves(b, l, side, dirs).len(),
    ensures
        move_entry_shape(b, side, sliding_moves(b, l, side, dirs)[j]),
        !(sliding_moves(b, l, side, dirs)[j] is Castle),
    decreases dirs.len(),
{
    let head = dir_moves(b, l, dirs[0].0, dirs[0].1, side);
    if j < head.len() {
        lemma_ray_moves_shape(b, l, dirs[0].0, dirs[0].1, side, 8, j);
    } else {
        lemma_sliding_moves_shape(b, l, side, dirs.skip(1), j - head.len());
    }
}

} // verus!
