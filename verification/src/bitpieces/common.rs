//! Shared machinery for the raw-bitboard piece calculators: the piece
//! colour, occupancy predicates, fixed-step source predicates, and the
//! blocked ray walk.

use vstd::prelude::*;
use crate::bitboard::BitBoard;
use crate::bits::{bit64, lemma_bit_or, lemma_bit_single, lemma_bit_zero};

verus! {

/// The colour of a piece or player.
#[derive(Clone, Copy, Debug, PartialEq, Eq, Structural)]
pub enum Color {
    White,
    Black,
}

impl Color {
    /// The opposing colour.
    pub fn opposite(&self) -> (r: Color)
        ensures
            r == spec_color_opposite(*self),
            r != *self,
    {
        match self {
            Color::White => Color::Black,
            Color::Black => Color::White,
        }
    }

    /// Index of this colour, `White` = 0, `Black` = 1.
    pub fn index(self) -> (r: usize)
        ensures
            r == color_index(self),
    {
        match self {
            Color::White => 0,
            Color::Black => 1,
        }
    }
}

/// The opposing colour.
pub open spec fn spec_color_opposite(c: Color) -> Color {
    match c {
        Color::White => Color::Black,
        Color::Black => Color::White,
    }
}

/// Index of a colour, `White` = 0, `Black` = 1.
pub open spec fn color_index(c: Color) -> int {
    match c {
        Color::White => 0,
        Color::Black => 1,
    }
}

/// Whether square `t` is occupied by either side.
pub open spec fn occ(own: u64, opponent: u64, t: int) -> bool {
    bit64(own, t as u64) || bit64(opponent, t as u64)
}

/// Whether a piece of `piece` stands one `(df, dr)` step before square
/// `t`, without wrapping around the board edge.
pub open spec fn step_source(piece: u64, t: int, df: int, dr: int) -> bool {
    let sf = t % 8 - df;
    let sr = t / 8 - dr;
    &&& 0 <= sf < 8
    &&& 0 <= sr < 8
    &&& bit64(piece, (8 * sr + sf) as u64)
}

/// The union of both sides' occupancy.
pub fn occupied(own_pieces: &BitBoard, opponent_pieces: &BitBoard) -> (r: BitBoard)
    ensures
        r.0 == (own_pieces.0 | opponent_pieces.0),
{
    BitBoard(own_pieces.0 | opponent_pieces.0)
}

/// The set of empty squares.
pub fn empty_squares(own_pieces: &BitBoard, opponent_pieces: &BitBoard) -> (r: BitBoard)
    ensures
        r.0 == !(own_pieces.0 | opponent_pieces.0),
{
    BitBoard(!(own_pieces.0 | opponent_pieces.0))
}

/// Splits a flat square index into its coordinates.
pub proof fn lemma_flat_coords(t: int, a: int, b: int)
    requires
        t == 8 * a + b,
        0 <= b < 8,
        0 <= a,
    ensures
        t % 8 == b,
        t / 8 == a,
{
    vstd::arithmetic::div_mod::lemma_fundamental_div_mod_converse(t, 8, a, b);
}

/// Whether square `t` is hit by the blocked ray from `(fi, ri)` along
/// `(df, dr)`: it is the `n`-th step outward for some `n`, every step
/// up to it stays on the board, and every strictly earlier step is
/// empty — so the walk reaches empty squares and the first occupied
/// square, and stops there.
pub open spec fn ray_hit(
    own: u64,
    opponent: u64,
    fi: int,
    ri: int,
    df: int,
    dr: int,
    t: int,
) -> bool {
    exists|n: int|
        #![trigger n * df]
        {
            &&& 1 <= n <= 7
            &&& (forall|m: int|
                1 <= m <= n ==> 0 <= fi + #[trigger] (m * df) < 8 && 0 <= ri + m * dr < 8)
            &&& t == 8 * (ri + n * dr) + (fi + n * df)
            &&& (forall|m: int|
                1 <= m < n ==> !occ(own, opponent, 8 * (ri + #[trigger] (m * dr)) + (fi + m * df)))
        }
}

/// The loop state of the ray walk before trying step `n`: every
/// earlier step is on the board and empty, and exactly those squares
/// are accumulated.
pub open spec fn ray_walk_state(
    own: u64,
    opponent: u64,
    fi: int,
    ri: int,
    df: int,
    dr: int,
    n: int,
    acc: u64,
) -> bool {
    &&& (forall|m: int| 1 <= m < n ==> 0 <= fi + #[trigger] (m * df) < 8 && 0 <= ri + m * dr < 8)
    &&& (forall|m: int|
        1 <= m < n ==> !occ(own, opponent, 8 * (ri + #[trigger] (m * dr)) + (fi + m * df)))
    &&& (forall|t: int|
        0 <= t < 64 ==> (#[trigger] bit64(acc, t as u64) == exists|m: int|
            #![trigger m * dr]
            1 <= m < n && t == 8 * (ri + (m * dr)) + (fi + m * df)))
}

/// When the walk stops because the next step leaves the board or the
/// step budget is spent, the accumulated squares are exactly the ray
/// hits.
#[verifier::rlimit(100)]
#[verifier::spinoff_prover]
proof fn lemma_ray_done_open(
    own: u64,
    opponent: u64,
    fi: int,
    ri: int,
    df: int,
    dr: int,
    n: int,
    acc: u64,
)
    requires
        1 <= n <= 8,
        ray_walk_state(own, opponent, fi, ri, df, dr, n, acc),
        n <= 7 ==> !(0 <= fi + n * df < 8 && 0 <= ri + n * dr < 8),
    ensures
        forall|t: int|
            0 <= t < 64 ==> (#[trigger] bit64(acc, t as u64) == ray_hit(
                own,
                opponent,
                fi,
                ri,
                df,
                dr,
                t,
            )),
{
    assert forall|t: int| 0 <= t < 64 implies (#[trigger] bit64(acc, t as u64) == ray_hit(
        own,
        opponent,
        fi,
        ri,
        df,
        dr,
        t,
    )) by {
        if bit64(acc, t as u64) {
            let m = choose|m: int|
                #![trigger m * dr]
                1 <= m < n && t == 8 * (ri + (m * dr)) + (fi + m * df);
            assert(1 <= m <= 7);
            assert(forall|m2: int|
                1 <= m2 <= m ==> 0 <= fi + #[trigger] (m2 * df) < 8 && 0 <= ri + m2 * dr < 8);
            assert(ray_hit(own, opponent, fi, ri, df, dr, t));
        } else if ray_hit(own, opponent, fi, ri, df, dr, t) {
            let n2 = choose|n2: int|
                #![trigger n2 * df]
                {
                    &&& 1 <= n2 <= 7
                    &&& (forall|m: int|
                        1 <= m <= n2 ==> 0 <= fi + #[trigger] (m * df) < 8 && 0 <= ri + m * dr < 8)
                    &&& t == 8 * (ri + n2 * dr) + (fi + n2 * df)
                    &&& (forall|m: int|
                        1 <= m < n2 ==> !occ(
                            own,
                            opponent,
                            8 * (ri + #[trigger] (m * dr)) + (fi + m * df),
                        ))
                };
            assert(n2 < n);
            assert(false);
        }
    }
}

/// When the walk stops on the first occupied square, the accumulated
/// squares — that square included — are exactly the ray hits.
#[verifier::rlimit(100)]
#[verifier::spinoff_prover]
proof fn lemma_ray_done_blocked(
    own: u64,
    opponent: u64,
    fi: int,
    ri: int,
    df: int,
    dr: int,
    n: int,
    acc: u64,
)
    requires
        1 <= n <= 7,
        forall|m: int| 1 <= m <= n ==> 0 <= fi + #[trigger] (m * df) < 8 && 0 <= ri + m * dr < 8,
        forall|m: int|
            1 <= m < n ==> !occ(own, opponent, 8 * (ri + #[trigger] (m * dr)) + (fi + m * df)),
        forall|t: int|
            0 <= t < 64 ==> (#[trigger] bit64(acc, t as u64) == exists|m: int|
                #![trigger m * dr]
                1 <= m <= n && t == 8 * (ri + (m * dr)) + (fi + m * df)),
        occ(own, opponent, 8 * (ri + n * dr) + (fi + n * df)),
    ensures
        forall|t: int|
            0 <= t < 64 ==> (#[trigger] bit64(acc, t as u64) == ray_hit(
                own,
                opponent,
                fi,
                ri,
                df,
                dr,
                t,
            )),
{
    assert forall|t: int| 0 <= t < 64 implies (#[trigger] bit64(acc, t as u64) == ray_hit(
        own,
        opponent,
        fi,
        ri,
        df,
        dr,
        t,
    )) by {
        if bit64(acc, t as u64) {
            let m = choose|m: int|
                #![trigger m * dr]
                1 <= m < n + 1 && t == 8 * (ri + (m * dr)) + (fi + m * df);
            assert(1 <= m <= 7);
            assert(forall|m2: int|
                1 <= m2 <= m ==> 0 <= fi + #[trigger] (m2 * df) < 8 && 0 <= ri + m2 * dr < 8);
            assert(ray_hit(own, opponent, fi, ri, df, dr, t));
        } else if ray_hit(own, opponent, fi, ri, df, dr, t) {
            let n2 = choose|n2: int|
                #![trigger n2 * df]
                {
                    &&& 1 <= n2 <= 7
                    &&& (forall|m: int|
                        1 <= m <= n2 ==> 0 <= fi + #[trigger] (m * df) < 8 && 0 <= ri + m * dr < 8)
                    &&& t == 8 * (ri + n2 * dr) + (fi + n2 * df)
                    &&& (forall|m: int|
                        1 <= m < n2 ==> !occ(
                            own,
                            opponent,
                            8 * (ri + #[trigger] (m * dr)) + (fi + m * df),
                        ))
                };
            if n2 <= n {
                assert(false);
            } else {
                assert(!occ(own, opponent, 8 * (ri + n * dr) + (fi + n * df)));
                assert(false);
            }
        }
    }
}

/// Walks the ray from `(fi, ri)` along `(df, dr)` and returns the hit
/// squares as a bit set: every empty square up to and including the
/// first occupied one.
#[verifier::rlimit(100)]
#[verifier::spinoff_prover]
pub fn ray_bits(own: &BitBoard, opponent: &BitBoard, fi: usize, ri: usize, df: i8, dr: i8) -> (r:
    u64)
    requires
        fi < 8,
        ri < 8,
        -1 <= df <= 1,
        -1 <= dr <= 1,
        !(df == 0 && dr == 0),
    ensures
        forall|t: int|
            0 <= t < 64 ==> (#[trigger] bit64(r, t as u64) == ray_hit(
                own.0,
                opponent.0,
                fi as int,
                ri as int,
                df as int,
                dr as int,
                t,
            )),
{
    let mut acc: u64 = 0;
    proof {
        assert forall|j: u64| j < 64 implies !bit64(0u64, j) by {
            lemma_bit_zero(j);
        }
    }
    let mut n: usize = 1;
    loop
        invariant_except_break
            fi < 8,
            ri < 8,
            -1 <= df <= 1,
            -1 <= dr <= 1,
            !(df == 0 && dr == 0),
            1 <= n <= 8,
            ray_walk_state(
                own.0,
                opponent.0,
                fi as int,
                ri as int,
                df as int,
                dr as int,
                n as int,
                acc,
            ),
        ensures
            forall|t: int|
                0 <= t < 64 ==> (#[trigger] bit64(acc, t as u64) == ray_hit(
                    own.0,
                    opponent.0,
                    fi as int,
                    ri as int,
                    df as int,
                    dr as int,
                    t,
                )),
        decreases 8 - n,
    {
        if n == 8 {
            proof {
                lemma_ray_done_open(
                    own.0,
                    opponent.0,
                    fi as int,
                    ri as int,
                    df as int,
                    dr as int,
                    8,
                    acc,
                );
            }
            break ;
        }
        proof {
            assert(-7 <= (n as int) * (df as int) <= 7 && -7 <= (n as int) * (dr as int) <= 7)
                by (nonlinear_arith)
                requires
                    1 <= n <= 7 && -1 <= df <= 1 && -1 <= dr <= 1,
            ;
        }
        let tf: i16 = fi as i16 + (n as i16) * (df as i16);
        let tr: i16 = ri as i16 + (n as i16) * (dr as i16);
        if !(0 <= tf && tf < 8 && 0 <= tr && tr < 8) {
            proof {
                lemma_ray_done_open(
                    own.0,
                    opponent.0,
                    fi as int,
                    ri as int,
                    df as int,
                    dr as int,
                    n as int,
                    acc,
                );
            }
            break ;
        }
        let t: usize = 8 * (tr as usize) + (tf as usize);
        let ghost prev = acc;
        acc = acc | (1u64 << (t as u64));
        proof {
            assert forall|t2: int| 0 <= t2 < 64 implies (#[trigger] bit64(acc, t2 as u64) == (
            bit64(prev, t2 as u64) || t2 == t as int)) by {
                lemma_bit_or(prev, 1u64 << (t as u64), t2 as u64);
                lemma_bit_single(t as u64, t2 as u64);
            }
        }
        if (own.0 | opponent.0) & (1u64 << (t as u64)) != 0 {
            proof {
                lemma_bit_or(own.0, opponent.0, t as u64);
                lemma_bit_single(t as u64, t as u64);
                assert(bit64(own.0 | opponent.0, t as u64));
                assert forall|t2: int| 0 <= t2 < 64 implies (#[trigger] bit64(acc, t2 as u64)
                    == exists|m: int|
                    #![trigger m * (dr as int)]
                    1 <= m <= n && t2 == 8 * (ri + (m * (dr as int))) + (fi + m * (
                    df as int))) by {
                    if bit64(acc, t2 as u64) {
                        if bit64(prev, t2 as u64) {
                        } else {
                            assert(t2 == 8 * (ri + (n as int) * (dr as int)) + (fi + (n as int) * (
                            df as int)));
                        }
                    } else {
                        if exists|m: int|
                            #![trigger m * (dr as int)]
                            1 <= m <= n && t2 == 8 * (ri + (m * (dr as int))) + (fi + m * (
                            df as int)) {
                            let m = choose|m: int|
                                #![trigger m * (dr as int)]
                                1 <= m <= n && t2 == 8 * (ri + (m * (dr as int))) + (fi + m * (
                                df as int));
                            if m < n {
                                assert(bit64(prev, t2 as u64));
                                assert(false);
                            } else {
                                assert(t2 == t as int);
                                assert(false);
                            }
                        }
                    }
                }
                lemma_ray_done_blocked(
                    own.0,
                    opponent.0,
                    fi as int,
                    ri as int,
                    df as int,
                    dr as int,
                    n as int,
                    acc,
                );
            }
            break ;
        }
        proof {
            lemma_bit_or(own.0, opponent.0, t as u64);
            lemma_bit_single(t as u64, t as u64);
            assert(!occ(own.0, opponent.0, t as int));
        }
        n = n + 1;
    }
    acc
}


/// A masked upward shift reads as a step: if `cons` holds exactly the
/// pieces whose `(df, dr)` step stays on the board, then bit `t` of
/// `cons` shifted up by `8 * dr + df` says a piece stands one step
/// before `t`.
pub proof fn lemma_step_shift_up(piece: u64, cons: u64, df: int, dr: int, t: u64)
    requires
        t < 64,
        0 < 8 * dr + df < 64,
        -7 <= df <= 7,
        0 <= dr,
        forall|s: int|
            0 <= s < 64 ==> (#[trigger] bit64(cons, s as u64) == (bit64(piece, s as u64) && 0 <= s
                % 8 + df < 8 && 0 <= s / 8 + dr < 8)),
    ensures
        bit64(cons << ((8 * dr + df) as u64), t) == step_source(piece, t as int, df, dr),
{
    let k = 8 * dr + df;
    crate::bits::lemma_bit_shl(cons, k as u64, t);
    if t >= k && bit64(cons, (t - k) as u64) {
        let s = t - k;
        assert(0 <= s % 8 + df < 8 && 0 <= s / 8 + dr < 8);
        assert(s == 8 * (s / 8) + s % 8);
        lemma_flat_coords(s + k, s / 8 + dr, s % 8 + df);
        assert(t % 8 == s % 8 + df && t / 8 == s / 8 + dr);
        assert(step_source(piece, t as int, df, dr));
    }
    if step_source(piece, t as int, df, dr) {
        let sf = t % 8 - df;
        let sr = t / 8 - dr;
        let s = 8 * sr + sf;
        lemma_flat_coords(s, sr, sf);
        assert(t == 8 * (t / 8) + t % 8);
        assert(s == t - k);
        assert(bit64(cons, s as u64));
        assert(bit64(cons << (k as u64), t));
    }
}

/// A masked downward shift reads as a step: if `cons` holds exactly
/// the pieces whose `(df, dr)` step stays on the board (with `dr`
/// negative or the step otherwise downward), then bit `t` of `cons`
/// shifted down by `-(8 * dr + df)` says a piece stands one step
/// before `t`.
pub proof fn lemma_step_shift_down(piece: u64, cons: u64, df: int, dr: int, t: u64)
    requires
        t < 64,
        -64 < 8 * dr + df < 0,
        -7 <= df <= 7,
        dr <= 0,
        forall|s: int|
            0 <= s < 64 ==> (#[trigger] bit64(cons, s as u64) == (bit64(piece, s as u64) && 0 <= s
                % 8 + df < 8 && 0 <= s / 8 + dr < 8)),
    ensures
        bit64(cons >> ((-(8 * dr + df)) as u64), t) == step_source(piece, t as int, df, dr),
{
    let k = -(8 * dr + df);
    crate::bits::lemma_bit_shr(cons, k as u64, t);
    if t + k < 64 && bit64(cons, (t + k) as u64) {
        let s = t + k;
        assert(0 <= s % 8 + df < 8 && 0 <= s / 8 + dr < 8);
        assert(s == 8 * (s / 8) + s % 8);
        lemma_flat_coords(s - k, s / 8 + dr, s % 8 + df);
        assert(t % 8 == s % 8 + df && t / 8 == s / 8 + dr);
        assert(step_source(piece, t as int, df, dr));
    }
    if step_source(piece, t as int, df, dr) {
        let sf = t % 8 - df;
        let sr = t / 8 - dr;
        let s = 8 * sr + sf;
        lemma_flat_coords(s, sr, sf);
        assert(t == 8 * (t / 8) + t % 8);
        assert(s == t + k);
        assert(bit64(cons, s as u64));
        assert(bit64(cons >> (k as u64), t));
    }
}


/// The row mask of rank `k` as a word.
pub fn rank_mask(k: u64) -> (r: u64)
    requires
        k < 8,
    ensures
        forall|t: int| 0 <= t < 64 ==> (#[trigger] bit64(r, t as u64) == (t / 8 == k)),
{
    let r = 0xffu64 << (8 * k);
    proof {
        assert forall|t: int| 0 <= t < 64 implies (#[trigger] bit64(r, t as u64) == (t / 8
            == k)) by {
            crate::square::rank::lemma_rank_mask_bit(k, t as u64);
        }
    }
    r
}

/// The pieces of `piece` whose `(df, dr)` step stays on the board,
/// for steps of at most two files and two ranks.
pub fn masked(piece: &BitBoard, df: i8, dr: i8) -> (r: u64)
    requires
        -2 <= df <= 2,
        -2 <= dr <= 2,
    ensures
        forall|s: int|
            0 <= s < 64 ==> (#[trigger] bit64(r, s as u64) == (bit64(piece.0, s as u64) && 0 <= s
                % 8 + df < 8 && 0 <= s / 8 + dr < 8)),
{
    let fa = 0x0101010101010101u64;
    let file_ok: u64 = if df == 1 {
        !(fa << 7)
    } else if df == 2 {
        !((fa << 6) | (fa << 7))
    } else if df == -1 {
        !(fa << 0)
    } else if df == -2 {
        !((fa << 0) | (fa << 1))
    } else {
        !0u64
    };
    let rank_ok: u64 = if dr == 1 {
        !(0xffu64 << 56)
    } else if dr == 2 {
        !((0xffu64 << 48) | (0xffu64 << 56))
    } else if dr == -1 {
        !(0xffu64 << 0)
    } else if dr == -2 {
        !((0xffu64 << 0) | (0xffu64 << 8))
    } else {
        !0u64
    };
    let r = piece.0 & file_ok & rank_ok;
    proof {
        assert forall|s: int| 0 <= s < 64 implies (#[trigger] bit64(r, s as u64) == (bit64(
            piece.0,
            s as u64,
        ) && 0 <= s % 8 + df < 8 && 0 <= s / 8 + dr < 8)) by {
            crate::bits::lemma_bit_and(piece.0 & file_ok, rank_ok, s as u64);
            crate::bits::lemma_bit_and(piece.0, file_ok, s as u64);
            assert(bit64(file_ok, s as u64) == (0 <= s % 8 + df < 8)) by {
                crate::bits::lemma_bit_not(!file_ok, s as u64);
                if df == 1 {
                    crate::square::file::lemma_file_mask_bit(7, s as u64);
                    crate::bits::lemma_bit_not(fa << 7, s as u64);
                } else if df == 2 {
                    crate::square::file::lemma_file_mask_bit(6, s as u64);
                    crate::square::file::lemma_file_mask_bit(7, s as u64);
                    crate::bits::lemma_bit_or(fa << 6, fa << 7, s as u64);
                    crate::bits::lemma_bit_not((fa << 6) | (fa << 7), s as u64);
                } else if df == -1 {
                    crate::square::file::lemma_file_mask_bit(0, s as u64);
                    crate::bits::lemma_bit_not(fa << 0, s as u64);
                } else if df == -2 {
                    crate::square::file::lemma_file_mask_bit(0, s as u64);
                    crate::square::file::lemma_file_mask_bit(1, s as u64);
                    crate::bits::lemma_bit_or(fa << 0, fa << 1, s as u64);
                    crate::bits::lemma_bit_not((fa << 0) | (fa << 1), s as u64);
                } else {
                    crate::bits::lemma_bit_not(0u64, s as u64);
                    crate::bits::lemma_bit_zero(s as u64);
                }
            }
            assert(bit64(rank_ok, s as u64) == (0 <= s / 8 + dr < 8)) by {
                if dr == 1 {
                    crate::square::rank::lemma_rank_mask_bit(7, s as u64);
                    crate::bits::lemma_bit_not(0xffu64 << 56, s as u64);
                } else if dr == 2 {
                    crate::square::rank::lemma_rank_mask_bit(6, s as u64);
                    crate::square::rank::lemma_rank_mask_bit(7, s as u64);
                    crate::bits::lemma_bit_or(0xffu64 << 48, 0xffu64 << 56, s as u64);
                    crate::bits::lemma_bit_not((0xffu64 << 48) | (0xffu64 << 56), s as u64);
                } else if dr == -1 {
                    crate::square::rank::lemma_rank_mask_bit(0, s as u64);
                    crate::bits::lemma_bit_not(0xffu64 << 0, s as u64);
                } else if dr == -2 {
                    crate::square::rank::lemma_rank_mask_bit(0, s as u64);
                    crate::square::rank::lemma_rank_mask_bit(1, s as u64);
                    crate::bits::lemma_bit_or(0xffu64 << 0, 0xffu64 << 8, s as u64);
                    crate::bits::lemma_bit_not((0xffu64 << 0) | (0xffu64 << 8), s as u64);
                } else {
                    crate::bits::lemma_bit_not(0u64, s as u64);
                    crate::bits::lemma_bit_zero(s as u64);
                }
            }
        }
    }
    r
}

/// The squares one `(df, dr)` step after some piece of `piece`,
/// without wrapping around the board edge.
#[verifier::rlimit(100)]
pub fn step_bits(piece: &BitBoard, df: i8, dr: i8) -> (r: u64)
    requires
        -2 <= df <= 2,
        -2 <= dr <= 2,
        !(df == 0 && dr == 0),
    ensures
        forall|t: int|
            0 <= t < 64 ==> (#[trigger] bit64(r, t as u64) == step_source(
                piece.0,
                t,
                df as int,
                dr as int,
            )),
{
    let cons = masked(piece, df, dr);
    let k: i16 = 8 * (dr as i16) + (df as i16);
    let r: u64 = if k > 0 {
        cons << (k as u32)
    } else {
        cons >> ((-k) as u32)
    };
    proof {
        assert forall|t: int| 0 <= t < 64 implies (#[trigger] bit64(r, t as u64) == step_source(
            piece.0,
            t,
            df as int,
            dr as int,
        )) by {
            if k > 0 {
                lemma_step_shift_up(piece.0, cons, df as int, dr as int, t as u64);
            } else {
                lemma_step_shift_down(piece.0, cons, df as int, dr as int, t as u64);
            }
        }
    }
    r
}

} // verus!
