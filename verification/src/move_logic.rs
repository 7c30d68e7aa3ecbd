//! Move-pattern generators: blocker masks, sliding attack patterns and the
//! knight pattern.
//!
//! The reference semantics is the deterministic ray cast: from a square,
//! walk one square at a time in a direction, collect every visited square,
//! and stop on the first occupied one, which is included.  Blocker masks
//! are the occupancy-free rays with the edge square of each ray left out.

use crate::bits::{lemma_or_assoc, lemma_or_zero};
use crate::bits::bit64;
use crate::mask::{lemma_bit_and_one, BoardMask};
use crate::occupancy::Occupancy;
use crate::square::Square;
use vstd::prelude::*;

verus! {

/// How many steps fit on the board from `(r, f)` in direction `(dr, df)`.
pub open spec fn steps_to_edge(r: int, f: int, dr: int, df: int) -> int {
    let vr = if dr > 0 {
        7 - r
    } else if dr < 0 {
        r
    } else {
        8
    };
    let vf = if df > 0 {
        7 - f
    } else if df < 0 {
        f
    } else {
        8
    };
    if vr < vf {
        vr
    } else {
        vf
    }
}

/// The ray cast from `(r, f)` in direction `(dr, df)` under occupancy
/// `occ`: every square up to and including the first occupied one, the
/// starting square excluded.
pub open spec fn ray_attacks_rf(r: int, f: int, occ: u64, dr: int, df: int) -> u64
    decreases steps_to_edge(r, f, dr, df),
{
    let nr = r + dr;
    let nf = f + df;
    if !(0 <= r < 8 && 0 <= f < 8 && 0 <= nr < 8 && 0 <= nf < 8) || (dr == 0 && df == 0) || !(-1
        <= dr <= 1 && -1 <= df <= 1) {
        0u64
    } else {
        (1u64 << ((8 * nr + nf) as u64)) | if bit64(occ, (8 * nr + nf) as u64) {
            0u64
        } else {
            ray_attacks_rf(nr, nf, occ, dr, df)
        }
    }
}

/// The blocker-mask ray from `(r, f)` in direction `(dr, df)`: the ray on
/// an empty board with the last square before the edge left out.
pub open spec fn ray_mask_rf(r: int, f: int, dr: int, df: int) -> u64
    decreases steps_to_edge(r, f, dr, df),
{
    let nr = r + dr;
    let nf = f + df;
    if !(0 <= r < 8 && 0 <= f < 8 && 0 <= nr < 8 && 0 <= nf < 8) || (dr == 0 && df == 0) || !(-1
        <= dr <= 1 && -1 <= df <= 1) {
        0u64
    } else if !(0 <= nr + dr < 8 && 0 <= nf + df < 8) {
        0u64
    } else {
        (1u64 << ((8 * nr + nf) as u64)) | ray_mask_rf(nr, nf, dr, df)
    }
}

/// All squares a rook on square `s` attacks under occupancy `occ`.
pub open spec fn rook_attacks(s: int, occ: u64) -> u64 {
    let r = s / 8;
    let f = s % 8;
    ray_attacks_rf(r, f, occ, 1, 0) | ray_attacks_rf(r, f, occ, -1, 0) | ray_attacks_rf(
        r,
        f,
        occ,
        0,
        1,
    ) | ray_attacks_rf(r, f, occ, 0, -1)
}

/// All squares a bishop on square `s` attacks under occupancy `occ`.
pub open spec fn bishop_attacks(s: int, occ: u64) -> u64 {
    let r = s / 8;
    let f = s % 8;
    ray_attacks_rf(r, f, occ, 1, 1) | ray_attacks_rf(r, f, occ, -1, -1) | ray_attacks_rf(
        r,
        f,
        occ,
        1,
        -1,
    ) | ray_attacks_rf(r, f, occ, -1, 1)
}

/// All squares a queen on square `s` attacks under occupancy `occ`.
pub open spec fn queen_attacks(s: int, occ: u64) -> u64 {
    rook_attacks(s, occ) | bishop_attacks(s, occ)
}

/// The blocker mask of a rook on square `s`: its rank and file without the
/// square itself and without the edge square of each ray.
pub open spec fn rook_mask(s: int) -> u64 {
    let r = s / 8;
    let f = s % 8;
    ray_mask_rf(r, f, 1, 0) | ray_mask_rf(r, f, -1, 0) | ray_mask_rf(r, f, 0, 1) | ray_mask_rf(
        r,
        f,
        0,
        -1,
    )
}

/// The blocker mask of a bishop on square `s`.
pub open spec fn bishop_mask(s: int) -> u64 {
    let r = s / 8;
    let f = s % 8;
    ray_mask_rf(r, f, 1, 1) | ray_mask_rf(r, f, -1, -1) | ray_mask_rf(r, f, 1, -1) | ray_mask_rf(
        r,
        f,
        -1,
        1,
    )
}

/// The bit for `(r, f)` if it lies on the board, else the empty set.
pub open spec fn board_bit(r: int, f: int) -> u64 {
    if 0 <= r < 8 && 0 <= f < 8 {
        1u64 << ((8 * r + f) as u64)
    } else {
        0u64
    }
}

/// The up-to-eight squares a knight on square `s` attacks.
pub open spec fn knight_attacks(s: int) -> u64 {
    let r = s / 8;
    let f = s % 8;
    board_bit(r + 2, f + 1) | board_bit(r + 2, f - 1) | board_bit(r - 2, f + 1) | board_bit(
        r - 2,
        f - 1,
    ) | board_bit(r + 1, f + 2) | board_bit(r + 1, f - 2) | board_bit(r - 1, f + 2) | board_bit(
        r - 1,
        f - 2,
    )
}

/// Walks one ray of the attack cast, accumulating the visited squares and
/// stopping on the first blocker, which is included.
fn ray_attack_walk(r0: u8, f0: u8, occ: u64, dr: i8, df: i8) -> (m: u64)
    requires
        r0 < 8,
        f0 < 8,
        -1 <= dr <= 1,
        -1 <= df <= 1,
        !(dr == 0 && df == 0),
    ensures
        m == ray_attacks_rf(r0 as int, f0 as int, occ, dr as int, df as int),
{
    let mut acc: u64 = 0;
    let mut r: i8 = r0 as i8;
    let mut f: i8 = f0 as i8;
    let mut cont: bool = true;
    proof {
        lemma_or_zero(ray_attacks_rf(r0 as int, f0 as int, occ, dr as int, df as int));
    }
    while cont
        invariant
            -1 <= dr <= 1,
            -1 <= df <= 1,
            !(dr == 0 && df == 0),
            cont ==> (0 <= r < 8 && 0 <= f < 8),
            cont ==> acc | ray_attacks_rf(r as int, f as int, occ, dr as int, df as int)
                == ray_attacks_rf(r0 as int, f0 as int, occ, dr as int, df as int),
            !cont ==> acc == ray_attacks_rf(r0 as int, f0 as int, occ, dr as int, df as int),
        decreases steps_to_edge(r as int, f as int, dr as int, df as int), (if cont {
            1int
        } else {
            0int
        }),
    {
        let nr = r + dr;
        let nf = f + df;
        if 0 <= nr && nr < 8 && 0 <= nf && nf < 8 {
            let ni: u8 = (8 * nr + nf) as u8;
            let nbit: u64 = 1u64 << ni;
            let ghost rest = ray_attacks_rf(nr as int, nf as int, occ, dr as int, df as int);
            proof {
                lemma_bit_and_one(occ, ni as u64);
                lemma_or_assoc(acc, nbit, rest);
                lemma_or_zero(nbit);
                lemma_or_zero(acc | nbit);
            }
            acc = acc | nbit;
            if occ & nbit != 0 {
                cont = false;
            } else {
                r = nr;
                f = nf;
            }
        } else {
            proof {
                lemma_or_zero(acc);
            }
            cont = false;
        }
    }
    acc
}

/// Walks one ray of a blocker mask: the occupancy-free ray with its edge
/// square left out.
fn ray_mask_walk(r0: u8, f0: u8, dr: i8, df: i8) -> (m: u64)
    requires
        r0 < 8,
        f0 < 8,
        -1 <= dr <= 1,
        -1 <= df <= 1,
        !(dr == 0 && df == 0),
    ensures
        m == ray_mask_rf(r0 as int, f0 as int, dr as int, df as int),
{
    let mut acc: u64 = 0;
    let mut r: i8 = r0 as i8;
    let mut f: i8 = f0 as i8;
    let mut cont: bool = true;
    proof {
        lemma_or_zero(ray_mask_rf(r0 as int, f0 as int, dr as int, df as int));
    }
    while cont
        invariant
            -1 <= dr <= 1,
            -1 <= df <= 1,
            !(dr == 0 && df == 0),
            cont ==> (0 <= r < 8 && 0 <= f < 8),
            cont ==> acc | ray_mask_rf(r as int, f as int, dr as int, df as int) == ray_mask_rf(
                r0 as int,
                f0 as int,
                dr as int,
                df as int,
            ),
            !cont ==> acc == ray_mask_rf(r0 as int, f0 as int, dr as int, df as int),
        decreases steps_to_edge(r as int, f as int, dr as int, df as int), (if cont {
            1int
        } else {
            0int
        }),
    {
        let nr = r + dr;
        let nf = f + df;
        if 0 <= nr && nr < 8 && 0 <= nf && nf < 8 && 0 <= nr + dr && nr + dr < 8 && 0 <= nf + df
            && nf + df < 8 {
            let ni: u8 = (8 * nr + nf) as u8;
            let nbit: u64 = 1u64 << ni;
            let ghost rest = ray_mask_rf(nr as int, nf as int, dr as int, df as int);
            proof {
                lemma_or_assoc(acc, nbit, rest);
            }
            acc = acc | nbit;
            r = nr;
            f = nf;
        } else {
            proof {
                lemma_or_zero(acc);
            }
            cont = false;
        }
    }
    acc
}

/// The blocker mask of a rook standing on `square`: the squares whose
/// occupancy can change where the rook may move, excluding the rook's own
/// square and the board edges.
pub fn create_rook_mask(square: Square) -> (r: BoardMask)
    ensures
        r.0 == rook_mask(square.as_int()),
{
    let r0 = square.vertical();
    let f0 = square.horizontal();
    let m = ray_mask_walk(r0, f0, 1, 0) | ray_mask_walk(r0, f0, -1, 0) | ray_mask_walk(r0, f0, 0, 1)
        | ray_mask_walk(r0, f0, 0, -1);
    BoardMask(m)
}

/// The blocker mask of a bishop standing on `square`.
pub fn create_bishop_mask(square: Square) -> (r: BoardMask)
    ensures
        r.0 == bishop_mask(square.as_int()),
{
    let r0 = square.vertical();
    let f0 = square.horizontal();
    let m = ray_mask_walk(r0, f0, 1, 1) | ray_mask_walk(r0, f0, -1, -1) | ray_mask_walk(
        r0,
        f0,
        1,
        -1,
    ) | ray_mask_walk(r0, f0, -1, 1);
    BoardMask(m)
}

/// All squares a rook standing on `square` attacks under the given
/// occupancy: each cardinal ray up to and including its first blocker.
pub fn create_rook_attack_pattern(square: Square, occupancy: Occupancy) -> (r: BoardMask)
    ensures
        r.0 == rook_attacks(square.as_int(), occupancy.0),
{
    let r0 = square.vertical();
    let f0 = square.horizontal();
    let m = ray_attack_walk(r0, f0, occupancy.0, 1, 0) | ray_attack_walk(r0, f0, occupancy.0, -1, 0)
        | ray_attack_walk(r0, f0, occupancy.0, 0, 1) | ray_attack_walk(r0, f0, occupancy.0, 0, -1);
    BoardMask(m)
}

/// All squares a bishop standing on `square` attacks under the given
/// occupancy: each diagonal ray up to and including its first blocker.
pub fn create_bishop_attack_pattern(square: Square, occupancy: Occupancy) -> (r: BoardMask)
    ensures
        r.0 == bishop_attacks(square.as_int(), occupancy.0),
{
    let r0 = square.vertical();
    let f0 = square.horizontal();
    let m = ray_attack_walk(r0, f0, occupancy.0, 1, 1) | ray_attack_walk(
        r0,
        f0,
        occupancy.0,
        -1,
        -1,
    ) | ray_attack_walk(r0, f0, occupancy.0, 1, -1) | ray_attack_walk(r0, f0, occupancy.0, -1, 1);
    BoardMask(m)
}

/// The bit for `(r, f)` when that square lies on the board.
fn board_bit_at(r: i8, f: i8) -> (m: u64)
    requires
        -2 <= r <= 9,
        -2 <= f <= 9,
    ensures
        m == board_bit(r as int, f as int),
{
    if 0 <= r && r < 8 && 0 <= f && f < 8 {
        1u64 << ((8 * r + f) as u8)
    } else {
        0
    }
}

/// The up-to-eight L-shaped destinations of a knight standing on `square`,
/// bounded by the board edges.  The pattern does not depend on occupancy.
pub fn create_knight_attack_pattern(square: Square) -> (r: BoardMask)
    ensures
        r.0 == knight_attacks(square.as_int()),
{
    let r0 = square.vertical() as i8;
    let f0 = square.horizontal() as i8;
    let m = board_bit_at(r0 + 2, f0 + 1) | board_bit_at(r0 + 2, f0 - 1) | board_bit_at(
        r0 - 2,
        f0 + 1,
    ) | board_bit_at(r0 - 2, f0 - 1) | board_bit_at(r0 + 1, f0 + 2) | board_bit_at(r0 + 1, f0 - 2)
        | board_bit_at(r0 - 1, f0 + 2) | board_bit_at(r0 - 1, f0 - 2);
    BoardMask(m)
}

/// A ray cast only ever tests occupancy on the squares of its blocker-mask
/// ray, so masking the occupancy down to any superset of that ray changes
/// nothing.
proof fn lemma_ray_mask_agnostic(r: int, f: int, occ: u64, m: u64, dr: int, df: int)
    requires
        crate::bits::subset64(ray_mask_rf(r, f, dr, df), m),
    ensures
        ray_attacks_rf(r, f, occ & m, dr, df) == ray_attacks_rf(r, f, occ, dr, df),
    decreases steps_to_edge(r, f, dr, df),
{
    broadcast use crate::bits::group_bits;

    let nr = r + dr;
    let nf = f + df;
    if !(0 <= r < 8 && 0 <= f < 8 && 0 <= nr < 8 && 0 <= nf < 8) || (dr == 0 && df == 0) || !(-1
        <= dr <= 1 && -1 <= df <= 1) {
    } else {
        let ni = (8 * nr + nf) as u64;
        if !(0 <= nr + dr < 8 && 0 <= nf + df < 8) {
            assert(ray_attacks_rf(nr, nf, occ & m, dr, df) == 0);
            assert(ray_attacks_rf(nr, nf, occ, dr, df) == 0);
        } else {
            assert(ray_mask_rf(r, f, dr, df) == (1u64 << ni) | ray_mask_rf(nr, nf, dr, df));
            crate::bits::lemma_subset_or_split(1u64 << ni, ray_mask_rf(nr, nf, dr, df), m);
            assert(bit64(m, ni)) by {
                crate::bits::lemma_subset_bits(1u64 << ni, m);
            }
            assert(bit64(occ & m, ni) == bit64(occ, ni));
            lemma_ray_mask_agnostic(nr, nf, occ, m, dr, df);
        }
    }
}

/// Looking up a rook pattern under the occupancy restricted to the rook's
/// blocker mask gives the same attack set as the full occupancy.
pub proof fn lemma_rook_attacks_mask_agnostic(s: int, occ: u64)
    ensures
        rook_attacks(s, occ & rook_mask(s)) == rook_attacks(s, occ),
{
    let r = s / 8;
    let f = s % 8;
    let m = rook_mask(s);
    crate::bits::lemma_subset_refl(m);
    crate::bits::lemma_subset_or_split(
        ray_mask_rf(r, f, 1, 0) | ray_mask_rf(r, f, -1, 0) | ray_mask_rf(r, f, 0, 1),
        ray_mask_rf(r, f, 0, -1),
        m,
    );
    crate::bits::lemma_subset_or_split(
        ray_mask_rf(r, f, 1, 0) | ray_mask_rf(r, f, -1, 0),
        ray_mask_rf(r, f, 0, 1),
        m,
    );
    crate::bits::lemma_subset_or_split(ray_mask_rf(r, f, 1, 0), ray_mask_rf(r, f, -1, 0), m);
    lemma_ray_mask_agnostic(r, f, occ, m, 1, 0);
    lemma_ray_mask_agnostic(r, f, occ, m, -1, 0);
    lemma_ray_mask_agnostic(r, f, occ, m, 0, 1);
    lemma_ray_mask_agnostic(r, f, occ, m, 0, -1);
}

/// The bishop counterpart of the rook mask-agnosticism lemma.
pub proof fn lemma_bishop_attacks_mask_agnostic(s: int, occ: u64)
    ensures
        bishop_attacks(s, occ & bishop_mask(s)) == bishop_attacks(s, occ),
{
    let r = s / 8;
    let f = s % 8;
    let m = bishop_mask(s);
    crate::bits::lemma_subset_refl(m);
    crate::bits::lemma_subset_or_split(
        ray_mask_rf(r, f, 1, 1) | ray_mask_rf(r, f, -1, -1) | ray_mask_rf(r, f, 1, -1),
        ray_mask_rf(r, f, -1, 1),
        m,
    );
    crate::bits::lemma_subset_or_split(
        ray_mask_rf(r, f, 1, 1) | ray_mask_rf(r, f, -1, -1),
        ray_mask_rf(r, f, 1, -1),
        m,
    );
    crate::bits::lemma_subset_or_split(ray_mask_rf(r, f, 1, 1), ray_mask_rf(r, f, -1, -1), m);
    lemma_ray_mask_agnostic(r, f, occ, m, 1, 1);
    lemma_ray_mask_agnostic(r, f, occ, m, -1, -1);
    lemma_ray_mask_agnostic(r, f, occ, m, 1, -1);
    lemma_ray_mask_agnostic(r, f, occ, m, -1, 1);
}

/// The up-to-eight neighboring squares of square `s`.
pub open spec fn king_attacks(s: int) -> u64 {
    let r = s / 8;
    let f = s % 8;
    board_bit(r + 1, f - 1) | board_bit(r + 1, f) | board_bit(r + 1, f + 1) | board_bit(
        r,
        f - 1,
    ) | board_bit(r, f + 1) | board_bit(r - 1, f - 1) | board_bit(r - 1, f) | board_bit(
        r - 1,
        f + 1,
    )
}

/// The neighboring squares of `square`, for enumerating ordinary king
/// moves.
pub(crate) fn create_king_attack_pattern(square: Square) -> (r: BoardMask)
    ensures
        r.0 == king_attacks(square.as_int()),
{
    let r0 = square.vertical() as i8;
    let f0 = square.horizontal() as i8;
    let m = board_bit_at(r0 + 1, f0 - 1) | board_bit_at(r0 + 1, f0) | board_bit_at(r0 + 1, f0 + 1)
        | board_bit_at(r0, f0 - 1) | board_bit_at(r0, f0 + 1) | board_bit_at(r0 - 1, f0 - 1)
        | board_bit_at(r0 - 1, f0) | board_bit_at(r0 - 1, f0 + 1);
    BoardMask(m)
}

/// Union law: a queen attacks a square exactly when a rook or a bishop on
/// the same square under the same occupancy attacks it.
pub proof fn lemma_queen_attacks_union(s: int, occ: u64, t: u64)
    ensures
        bit64(queen_attacks(s, occ), t) <==> (bit64(rook_attacks(s, occ), t) || bit64(
            bishop_attacks(s, occ),
            t,
        )),
{
    crate::bits::lemma_bit_or(rook_attacks(s, occ), bishop_attacks(s, occ), t);
}

/// Membership in the one-square set of `board_bit`.
proof fn lemma_board_bit_membership(r: int, f: int, i: u64)
    ensures
        bit64(board_bit(r, f), i) <==> (0 <= r < 8 && 0 <= f < 8 && i == 8 * r + f),
{
    broadcast use crate::bits::group_bits;

}

/// The knight-leap law: the knight pattern of a square holds exactly the
/// on-board squares one L-shaped leap away, a rank-and-file delta of
/// (1, 2) or (2, 1) in any direction, and no others.
pub proof fn lemma_knight_attacks_membership(s: int, t: int)
    requires
        0 <= s < 64,
        0 <= t < 64,
    ensures
        bit64(knight_attacks(s), t as u64) <==> ({
            let dr = t / 8 - s / 8;
            let df = t % 8 - s % 8;
            ((dr == 2 || dr == -2) && (df == 1 || df == -1)) || ((dr == 1 || dr == -1) && (df == 2
                || df == -2))
        }),
{
    broadcast use crate::bits::group_bits;

    let r = s / 8;
    let f = s % 8;
    lemma_board_bit_membership(r + 2, f + 1, t as u64);
    lemma_board_bit_membership(r + 2, f - 1, t as u64);
    lemma_board_bit_membership(r - 2, f + 1, t as u64);
    lemma_board_bit_membership(r - 2, f - 1, t as u64);
    lemma_board_bit_membership(r + 1, f + 2, t as u64);
    lemma_board_bit_membership(r + 1, f - 2, t as u64);
    lemma_board_bit_membership(r - 1, f + 2, t as u64);
    lemma_board_bit_membership(r - 1, f - 2, t as u64);
}

/// Whether `(r, f)` lies on the board, as the one-or-zero count of its
/// `board_bit`.
pub open spec fn on_board_ind(r: int, f: int) -> nat {
    if 0 <= r < 8 && 0 <= f < 8 {
        1nat
    } else {
        0nat
    }
}

/// One leap target contributes one square when it is on the board and
/// nothing otherwise.
proof fn lemma_board_bit_count(r: int, f: int)
    ensures
        crate::bits::count_bits_upto(board_bit(r, f), 64) == on_board_ind(r, f),
{
    if 0 <= r < 8 && 0 <= f < 8 {
        crate::bits::lemma_count_single((8 * r + f) as u64, 64);
    } else {
        crate::bits::lemma_count_zero(64);
    }
}

/// The number of squares of a knight pattern is the number of its eight
/// leap targets that lie on the board: the targets are pairwise distinct,
/// so the union counts them without overlap.
#[verifier::rlimit(100)]
pub proof fn lemma_knight_count_formula(s: int)
    requires
        0 <= s < 64,
    ensures
        crate::bits::count_bits(knight_attacks(s)) == on_board_ind(s / 8 + 2, s % 8 + 1)
            + on_board_ind(s / 8 + 2, s % 8 - 1) + on_board_ind(s / 8 - 2, s % 8 + 1)
            + on_board_ind(s / 8 - 2, s % 8 - 1) + on_board_ind(s / 8 + 1, s % 8 + 2)
            + on_board_ind(s / 8 + 1, s % 8 - 2) + on_board_ind(s / 8 - 1, s % 8 + 2)
            + on_board_ind(s / 8 - 1, s % 8 - 2),
{
    broadcast use crate::bits::group_bits;

    let r = s / 8;
    let f = s % 8;
    let b1 = board_bit(r + 2, f + 1);
    let b2 = board_bit(r + 2, f - 1);
    let b3 = board_bit(r - 2, f + 1);
    let b4 = board_bit(r - 2, f - 1);
    let b5 = board_bit(r + 1, f + 2);
    let b6 = board_bit(r + 1, f - 2);
    let b7 = board_bit(r - 1, f + 2);
    let b8 = board_bit(r - 1, f - 2);
    assert forall|i: u64| #[trigger] bit64(b1, i) implies (0 <= r + 2 < 8 && 0 <= f + 1 < 8 && i
        == 8 * (r + 2) + (f + 1)) by {
        lemma_board_bit_membership(r + 2, f + 1, i);
    }
    assert forall|i: u64| #[trigger] bit64(b2, i) implies (0 <= r + 2 < 8 && 0 <= f - 1 < 8 && i
        == 8 * (r + 2) + (f - 1)) by {
        lemma_board_bit_membership(r + 2, f - 1, i);
    }
    assert forall|i: u64| #[trigger] bit64(b3, i) implies (0 <= r - 2 < 8 && 0 <= f + 1 < 8 && i
        == 8 * (r - 2) + (f + 1)) by {
        lemma_board_bit_membership(r - 2, f + 1, i);
    }
    assert forall|i: u64| #[trigger] bit64(b4, i) implies (0 <= r - 2 < 8 && 0 <= f - 1 < 8 && i
        == 8 * (r - 2) + (f - 1)) by {
        lemma_board_bit_membership(r - 2, f - 1, i);
    }
    assert forall|i: u64| #[trigger] bit64(b5, i) implies (0 <= r + 1 < 8 && 0 <= f + 2 < 8 && i
        == 8 * (r + 1) + (f + 2)) by {
        lemma_board_bit_membership(r + 1, f + 2, i);
    }
    assert forall|i: u64| #[trigger] bit64(b6, i) implies (0 <= r + 1 < 8 && 0 <= f - 2 < 8 && i
        == 8 * (r + 1) + (f - 2)) by {
        lemma_board_bit_membership(r + 1, f - 2, i);
    }
    assert forall|i: u64| #[trigger] bit64(b7, i) implies (0 <= r - 1 < 8 && 0 <= f + 2 < 8 && i
        == 8 * (r - 1) + (f + 2)) by {
        lemma_board_bit_membership(r - 1, f + 2, i);
    }
    assert forall|i: u64| #[trigger] bit64(b8, i) implies (0 <= r - 1 < 8 && 0 <= f - 2 < 8 && i
        == 8 * (r - 1) + (f - 2)) by {
        lemma_board_bit_membership(r - 1, f - 2, i);
    }
    let p2 = b1 | b2;
    let p3 = p2 | b3;
    let p4 = p3 | b4;
    let p5 = p4 | b5;
    let p6 = p5 | b6;
    let p7 = p6 | b7;
    assert(b1 & b2 == 0) by {
        crate::bits::lemma_bits_eq(b1 & b2, 0u64);
    }
    assert(p2 & b3 == 0) by {
        crate::bits::lemma_bits_eq(p2 & b3, 0u64);
    }
    assert(p3 & b4 == 0) by {
        crate::bits::lemma_bits_eq(p3 & b4, 0u64);
    }
    assert(p4 & b5 == 0) by {
        crate::bits::lemma_bits_eq(p4 & b5, 0u64);
    }
    assert(p5 & b6 == 0) by {
        crate::bits::lemma_bits_eq(p5 & b6, 0u64);
    }
    assert(p6 & b7 == 0) by {
        crate::bits::lemma_bits_eq(p6 & b7, 0u64);
    }
    assert(p7 & b8 == 0) by {
        crate::bits::lemma_bits_eq(p7 & b8, 0u64);
    }
    crate::bits::lemma_count_disjoint_or(b1, b2, 64);
    crate::bits::lemma_count_disjoint_or(p2, b3, 64);
    crate::bits::lemma_count_disjoint_or(p3, b4, 64);
    crate::bits::lemma_count_disjoint_or(p4, b5, 64);
    crate::bits::lemma_count_disjoint_or(p5, b6, 64);
    crate::bits::lemma_count_disjoint_or(p6, b7, 64);
    crate::bits::lemma_count_disjoint_or(p7, b8, 64);
    lemma_board_bit_count(r + 2, f + 1);
    lemma_board_bit_count(r + 2, f - 1);
    lemma_board_bit_count(r - 2, f + 1);
    lemma_board_bit_count(r - 2, f - 1);
    lemma_board_bit_count(r + 1, f + 2);
    lemma_board_bit_count(r + 1, f - 2);
    lemma_board_bit_count(r - 1, f + 2);
    lemma_board_bit_count(r - 1, f - 2);
    assert(knight_attacks(s) == p7 | b8);
}

/// The knight-count law, corner case: a corner knight has exactly two
/// destinations.
pub proof fn lemma_knight_corner_count(s: int)
    requires
        s == 0 || s == 7 || s == 56 || s == 63,
    ensures
        crate::bits::count_bits(knight_attacks(s)) == 2,
{
    lemma_knight_count_formula(s);
}

/// The knight-count law, edge case: a knight on the board's rim but not
/// in a corner has three or four destinations.
pub proof fn lemma_knight_edge_count(s: int)
    requires
        0 <= s < 64,
        s / 8 == 0 || s / 8 == 7 || s % 8 == 0 || s % 8 == 7,
        !(s == 0 || s == 7 || s == 56 || s == 63),
    ensures
        crate::bits::count_bits(knight_attacks(s)) == 3 || crate::bits::count_bits(
            knight_attacks(s),
        ) == 4,
{
    lemma_knight_count_formula(s);
}

/// The knight-count law, interior case: with rank and file both two away
/// from every edge, all eight destinations fit on the board.
pub proof fn lemma_knight_interior_count(s: int)
    requires
        0 <= s < 64,
        2 <= s / 8 <= 5,
        2 <= s % 8 <= 5,
    ensures
        crate::bits::count_bits(knight_attacks(s)) == 8,
{
    lemma_knight_count_formula(s);
}

} // verus!
