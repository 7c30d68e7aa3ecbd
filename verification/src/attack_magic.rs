//! Magic bitboards: a perfect hash from blocker subsets to precomputed
//! attack patterns.
//!
//! For a sliding piece on a square, every subset of its blocker mask is
//! hashed by one multiply-and-shift into a dense index; the table at that
//! index holds the attack pattern that applies when exactly those squares
//! block.  The multiplier is found by random search and checked against
//! every subset before it is accepted.

use crate::bits::{bit64, count_bits, group_bits, lemma_bits_eq, lemma_subset_bits, subset64};
use crate::mask::BoardMask;
use crate::move_logic::{
    bishop_attacks, bishop_mask, create_bishop_attack_pattern, create_bishop_mask,
    create_rook_attack_pattern, create_rook_mask, rook_attacks, rook_mask,
};
use crate::occupancy::{spec_hash, Occupancy};
use crate::square::Square;
use vstd::arithmetic::power2::pow2;
use vstd::bits::{
    lemma_u64_pow2_no_overflow, lemma_u64_shl_is_mul, lemma_usize_pow2_no_overflow,
    lemma_usize_shl_is_mul,
};
use vstd::prelude::*;

verus! {

/// Sparseness slack of the attack-pattern arrays: each array has
/// `2^(popcount(mask) + H)` slots for `2^popcount(mask)` subsets, which
/// relaxes the perfect-hash search.
pub const H: u32 = 1;

/// `o` is a subset of `m` that only uses bits below `i`.
pub open spec fn subset_upto(o: u64, m: u64, i: u64) -> bool {
    &&& subset64(o, m)
    &&& forall|j: u64| i <= j < 64 ==> !bit64(o, j)
}

/// The magic table of one square and one sliding-piece kind.
///
/// Invariant ([`AttackMagic::table_wf`]): for every subset of the blocker
/// mask, the hash lands inside the array, distinct subsets land on
/// distinct slots, and the slot holds the ray-cast attack pattern of that
/// subset.
#[derive(Debug, Clone)]
pub struct AttackMagic {
    /// The blocker mask whose subsets the table is indexed by.
    pub mask: BoardMask,
    /// The multiplier that makes the hash collision-free.
    pub magic_number: u64,
    /// The right-shift selecting the high bits of the product.
    pub shift: u8,
    /// The attack pattern of each blocker subset, at the subset's hash.
    pub attack_patterns: Vec<BoardMask>,
}

impl AttackMagic {
    /// The hash of every blocker subset stays inside the array and two
    /// distinct subsets never collide.
    pub open spec fn hash_wf(self) -> bool {
        &&& self.shift < 64
        &&& forall|o: u64| #[trigger]
            subset64(o, self.mask.0) ==> 0 <= spec_hash(o, self.mask.0, self.magic_number, self.shift)
                < self.attack_patterns.len()
        &&& forall|o1: u64, o2: u64|
            #![trigger subset64(o1, self.mask.0), subset64(o2, self.mask.0)]
            subset64(o1, self.mask.0) && subset64(o2, self.mask.0) && o1 != o2 ==> spec_hash(
                o1,
                self.mask.0,
                self.magic_number,
                self.shift,
            ) != spec_hash(o2, self.mask.0, self.magic_number, self.shift)
    }

    /// The table is a sound rook table for square `s`.
    pub open spec fn table_wf_rook(self, s: int) -> bool {
        &&& self.hash_wf()
        &&& self.mask.0 == rook_mask(s)
        &&& forall|o: u64| #[trigger]
            subset64(o, self.mask.0) ==> self.attack_patterns[spec_hash(
                o,
                self.mask.0,
                self.magic_number,
                self.shift,
            )].0 == rook_attacks(s, o)
    }

    /// The table is a sound bishop table for square `s`.
    pub open spec fn table_wf_bishop(self, s: int) -> bool {
        &&& self.hash_wf()
        &&& self.mask.0 == bishop_mask(s)
        &&& forall|o: u64| #[trigger]
            subset64(o, self.mask.0) ==> self.attack_patterns[spec_hash(
                o,
                self.mask.0,
                self.magic_number,
                self.shift,
            )].0 == bishop_attacks(s, o)
    }
}

/// Every possible blocker subset of the mask, each exactly once.
pub fn occupancies_from_mask(mask: BoardMask) -> (r: Vec<Occupancy>)
    ensures
        forall|k: int| 0 <= k < r@.len() ==> #[trigger] subset64(r@[k].0, mask.0),
        forall|o: u64| #[trigger] subset64(o, mask.0) ==> exists|k: int|
            #![trigger r@[k]]
            0 <= k < r@.len() && r@[k].0 == o,
        forall|k1: int, k2: int|
            0 <= k1 < r@.len() && 0 <= k2 < r@.len() && k1 != k2 ==> r@[k1].0 != r@[k2].0,
{
    let mut v: Vec<Occupancy> = Vec::new();
    v.push(Occupancy(0));
    proof {
        broadcast use group_bits;

        assert(v@[0].0 == 0u64);
        assert(subset64(0u64, mask.0)) by {
            lemma_subset_bits(0u64, mask.0);
        }
        assert forall|k: int| 0 <= k < v@.len() implies #[trigger] subset_upto(
            v@[k].0,
            mask.0,
            0u64,
        ) by {}
        assert forall|o: u64| #[trigger] subset_upto(o, mask.0, 0u64) implies exists|k: int|
            #![trigger v@[k]]
            0 <= k < v@.len() && v@[k].0 == o by {
            lemma_bits_eq(o, 0u64);
            assert(v@[0].0 == o);
        }
    }
    let mut i: u8 = 0;
    while i < 64
        invariant
            i <= 64,
            v@.len() >= 1,
            forall|k: int| 0 <= k < v@.len() ==> #[trigger] subset_upto(v@[k].0, mask.0, i as u64),
            forall|o: u64| #[trigger] subset_upto(o, mask.0, i as u64) ==> exists|k: int|
                #![trigger v@[k]]
                0 <= k < v@.len() && v@[k].0 == o,
            forall|k1: int, k2: int|
                0 <= k1 < v@.len() && 0 <= k2 < v@.len() && k1 != k2 ==> v@[k1].0 != v@[k2].0,
        decreases 64 - i,
    {
        proof {
            crate::mask::lemma_bit_and_one(mask.0, i as u64);
        }
        if mask.0 & (1u64 << i) != 0 {
            let b: u64 = 1u64 << i;
            let n = v.len();
            let ghost old_v = v@;
            let mut k: usize = 0;
            while k < n
                invariant
                    n == old_v.len(),
                    v@.len() == n + k,
                    k <= n,
                    b == 1u64 << (i as u64),
                    forall|j: int| 0 <= j < n ==> v@[j] == old_v[j],
                    forall|j: int| 0 <= j < k ==> v@[n + j].0 == old_v[j].0 | b,
                decreases n - k,
            {
                let o = v[k];
                v.push(Occupancy(o.0 | b));
                k = k + 1;
            }
            proof {
                broadcast use group_bits;

                let iu = i as u64;
                let m = mask.0;
                // every element of the doubled list is a subset that only
                // uses bits at or below i
                assert forall|kk: int| 0 <= kk < v@.len() implies #[trigger] subset_upto(
                    v@[kk].0,
                    m,
                    (i + 1) as u64,
                ) by {
                    if kk < n {
                        assert(subset_upto(old_v[kk].0, m, iu));
                    } else {
                        let o = old_v[kk - n].0;
                        assert(subset_upto(o, m, iu));
                        assert(v@[n + (kk - n)].0 == o | b);
                        assert(v@[kk].0 == o | b);
                        lemma_subset_bits(o, m);
                        assert forall|j: u64| j < 64 && bit64(o | b, j) implies bit64(m, j) by {}
                        lemma_subset_bits(o | b, m);
                    }
                }
                // completeness: every subset over bits at or below i is listed
                assert forall|o: u64| #![trigger subset_upto(o, m, (i + 1) as u64)]
                subset_upto(o, m, (i + 1) as u64) implies exists|kk: int|
                    #![trigger v@[kk]]
                    0 <= kk < v@.len() && v@[kk].0 == o by {
                    if !bit64(o, iu) {
                        assert(subset_upto(o, m, iu));
                        let kk = choose|kk: int| 0 <= kk < old_v.len() && old_v[kk].0 == o;
                        assert(v@[kk].0 == o);
                    } else {
                        let o0 = o & !b;
                        lemma_subset_bits(o, m);
                        assert forall|j: u64| j < 64 && bit64(o0, j) implies bit64(m, j) by {}
                        lemma_subset_bits(o0, m);
                        assert(subset_upto(o0, m, iu));
                        let kk = choose|kk: int| 0 <= kk < old_v.len() && old_v[kk].0 == o0;
                        assert(v@[n + kk].0 == o0 | b);
                        assert forall|j: u64| j < 64 implies bit64(o0 | b, j) == bit64(o, j) by {}
                        lemma_bits_eq(o0 | b, o);
                    }
                }
                // distinctness of the doubled list
                assert forall|k1: int, k2: int|
                    0 <= k1 < v@.len() && 0 <= k2 < v@.len() && k1 != k2 implies v@[k1].0
                    != v@[k2].0 by {
                    if k1 < n && k2 < n {
                        assert(v@[k1].0 == old_v[k1].0);
                        assert(v@[k2].0 == old_v[k2].0);
                    } else if k1 >= n && k2 >= n {
                        let o1 = old_v[k1 - n].0;
                        let o2 = old_v[k2 - n].0;
                        assert(v@[n + (k1 - n)].0 == o1 | b);
                        assert(v@[n + (k2 - n)].0 == o2 | b);
                        assert(v@[k1].0 == o1 | b && v@[k2].0 == o2 | b);
                        if o1 | b == o2 | b {
                            assert(subset_upto(o1, m, iu));
                            assert(subset_upto(o2, m, iu));
                            assert forall|j: u64| j < 64 implies bit64(o1, j) == bit64(o2, j) by {
                                assert(bit64(o1 | b, j) == bit64(o2 | b, j));
                            }
                            lemma_bits_eq(o1, o2);
                        }
                    } else {
                        let klo = if k1 < n {
                            k1
                        } else {
                            k2
                        };
                        let khi = if k1 < n {
                            k2
                        } else {
                            k1
                        };
                        let oh = old_v[khi - n].0;
                        assert(v@[n + (khi - n)].0 == oh | b);
                        assert(v@[khi].0 == oh | b);
                        assert(bit64(b, iu));
                        assert(subset_upto(old_v[klo].0, m, iu));
                        assert(v@[klo].0 == old_v[klo].0);
                        assert(!bit64(v@[klo].0, iu));
                        assert(bit64(v@[khi].0, iu));
                    }
                }
            }
        } else {
            proof {
                broadcast use group_bits;

                let iu = i as u64;
                let m = mask.0;
                assert forall|k: int| 0 <= k < v@.len() implies #[trigger] subset_upto(
                    v@[k].0,
                    m,
                    (i + 1) as u64,
                ) by {
                    assert(subset_upto(v@[k].0, m, iu));
                }
                assert forall|o: u64| #[trigger] subset_upto(o, m, (i + 1) as u64) implies exists|
                    k: int,
                |
                    #![trigger v@[k]]
                    0 <= k < v@.len() && v@[k].0 == o by {
                    if bit64(o, iu) {
                        lemma_subset_bits(o, m);
                    }
                    assert(subset_upto(o, m, iu));
                }
            }
        }
        i = i + 1;
    }
    proof {
        assert(i == 64);
        assert forall|o: u64| #[trigger] subset64(o, mask.0) implies exists|k: int|
            #![trigger v@[k]]
            0 <= k < v@.len() && v@[k].0 == o by {
            assert(subset_upto(o, mask.0, i as u64));
        }
        assert forall|k: int| 0 <= k < v@.len() implies #[trigger] subset64(v@[k].0, mask.0) by {
            assert(subset_upto(v@[k].0, mask.0, i as u64));
        }
    }
    v
}

/// How many attempts the random magic search makes before giving up.
pub const MAX_MAGIC_TRIES: u32 = 1000000;

/// The least number of address bits `m` at or above `m0` with
/// `2^m >= n`, capped at 64.
pub open spec fn addr_bits(n: int, m0: nat) -> nat
    decreases 64 - m0,
{
    if m0 >= 64 {
        64
    } else if pow2(m0) >= n {
        m0
    } else {
        addr_bits(n, m0 + 1)
    }
}

/// The multiplier hashes the listed occupancies into `[0, len)` without a
/// collision.
pub open spec fn magic_ok(
    mask: u64,
    magic_number: u64,
    shift: u8,
    len: int,
    occs: Seq<Occupancy>,
) -> bool {
    &&& forall|k: int|
        0 <= k < occs.len() ==> 0 <= #[trigger] spec_hash(occs[k].0, mask, magic_number, shift)
            < len
    &&& forall|k1: int, k2: int|
        #![trigger spec_hash(occs[k1].0, mask, magic_number, shift), spec_hash(occs[k2].0, mask, magic_number, shift)]
        0 <= k1 < occs.len() && 0 <= k2 < occs.len() && k1 != k2 ==> spec_hash(
            occs[k1].0,
            mask,
            magic_number,
            shift,
        ) != spec_hash(occs[k2].0, mask, magic_number, shift)
}

/// The number of bits needed to address a slice of the given size: the
/// least `m` with `2^m >= n`.
pub fn bits_to_address(n: usize) -> (r: u8)
    ensures
        r == addr_bits(n as int, 0),
        r <= 64,
{
    let mut m: u8 = 0;
    while m < 64 && (1u64 << m) < n as u64
        invariant
            m <= 64,
            addr_bits(n as int, 0) == addr_bits(n as int, m as nat),
        decreases 64 - m,
    {
        proof {
            lemma_u64_pow2_no_overflow(m as nat);
            lemma_u64_shl_is_mul(1u64, m as u64);
        }
        m = m + 1;
    }
    proof {
        if m < 64 {
            lemma_u64_pow2_no_overflow(m as nat);
            lemma_u64_shl_is_mul(1u64, m as u64);
        }
    }
    m
}

/// Checks a candidate multiplier against every listed occupancy: the
/// answer is exactly whether each hash falls inside the table and no two
/// collide.
pub(crate) fn check_magic(
    mask: BoardMask,
    magic_number: u64,
    shift: u8,
    len: usize,
    occupancies: &Vec<Occupancy>,
) -> (ok: bool)
    requires
        shift < 64,
    ensures
        ok <==> magic_ok(mask.0, magic_number, shift, len as int, occupancies@),
{
    let mut seen: Vec<bool> = vec![false; len];
    let mut k: usize = 0;
    while k < occupancies.len()
        invariant
            shift < 64,
            seen@.len() == len,
            k <= occupancies@.len(),
            forall|j: int|
                0 <= j < k ==> 0 <= #[trigger] spec_hash(
                    occupancies@[j].0,
                    mask.0,
                    magic_number,
                    shift,
                ) < len,
            forall|h: int|
                0 <= h < len ==> (#[trigger] seen@[h] == exists|j: int|
                    0 <= j < k && spec_hash(occupancies@[j].0, mask.0, magic_number, shift) == h),
            forall|j1: int, j2: int|
                #![trigger spec_hash(occupancies@[j1].0, mask.0, magic_number, shift), spec_hash(occupancies@[j2].0, mask.0, magic_number, shift)]
                0 <= j1 < j2 < k ==> spec_hash(occupancies@[j1].0, mask.0, magic_number, shift)
                    != spec_hash(occupancies@[j2].0, mask.0, magic_number, shift),
        decreases occupancies@.len() - k,
    {
        let h = occupancies[k].hash(mask, magic_number, shift);
        if h >= len {
            proof {
                assert(!(0 <= spec_hash(occupancies@[k as int].0, mask.0, magic_number, shift)
                    < len));
            }
            return false;
        }
        if seen[h] {
            proof {
                let j = choose|j: int|
                    0 <= j < k && spec_hash(occupancies@[j].0, mask.0, magic_number, shift)
                        == h as int;
                assert(spec_hash(occupancies@[j].0, mask.0, magic_number, shift) == spec_hash(
                    occupancies@[k as int].0,
                    mask.0,
                    magic_number,
                    shift,
                ));
            }
            return false;
        }
        proof {
            let ghost hh = h as int;
            assert forall|j: int|
                0 <= j < k implies #[trigger] spec_hash(
                occupancies@[j].0,
                mask.0,
                magic_number,
                shift,
            ) != hh by {
                let hj = spec_hash(occupancies@[j].0, mask.0, magic_number, shift);
                assert(seen@[hj]);
            }
        }
        seen[h] = true;
        proof {
            let ghost hh = h as int;
            assert forall|hx: int| 0 <= hx < len implies (#[trigger] seen@[hx] == exists|j: int|
                0 <= j < k + 1 && spec_hash(occupancies@[j].0, mask.0, magic_number, shift)
                    == hx) by {
                if hx == hh {
                    assert(spec_hash(occupancies@[k as int].0, mask.0, magic_number, shift) == hx);
                } else {
                    if seen@[hx] {
                        let j = choose|j: int|
                            0 <= j < k && spec_hash(
                                occupancies@[j].0,
                                mask.0,
                                magic_number,
                                shift,
                            ) == hx;
                        assert(0 <= j < k + 1 && spec_hash(
                            occupancies@[j].0,
                            mask.0,
                            magic_number,
                            shift,
                        ) == hx);
                    }
                }
            }
        }
        k = k + 1;
    }
    proof {
        assert forall|k1: int, k2: int|
            #![trigger spec_hash(occupancies@[k1].0, mask.0, magic_number, shift), spec_hash(occupancies@[k2].0, mask.0, magic_number, shift)]
            0 <= k1 < occupancies@.len() && 0 <= k2 < occupancies@.len() && k1 != k2 implies
            spec_hash(occupancies@[k1].0, mask.0, magic_number, shift) != spec_hash(
            occupancies@[k2].0,
            mask.0,
            magic_number,
            shift,
        ) by {
            let lo = if k1 < k2 {
                k1
            } else {
                k2
            };
            let hi = if k1 < k2 {
                k2
            } else {
                k1
            };
            assert(spec_hash(occupancies@[lo].0, mask.0, magic_number, shift) != spec_hash(
                occupancies@[hi].0,
                mask.0,
                magic_number,
                shift,
            ));
        }
    }
    true
}

/// Relies on rand::random: draws a fresh 64-bit value; nothing is promised
/// of it.
#[verifier::external_body]
fn random_u64() -> u64 {
    rand::random()
}

/// Searches for a multiplier whose hash is collision-free over every
/// listed occupancy of the mask.  Each candidate is drawn at random and
/// checked against the whole list; the search gives up after a large fixed
/// number of attempts, so `None` is possible but not expected.
pub fn find_valid_magic_number(mask: BoardMask, arr_size: usize, occupancies: &Vec<Occupancy>)
    -> (r: Option<u64>)
    ensures
        r matches Some(magic_number) ==> ({
            let shift = (64 - addr_bits(arr_size as int, 0)) as u8;
            &&& addr_bits(arr_size as int, 0) >= 1
            &&& magic_ok(mask.0, magic_number, shift, arr_size as int, occupancies@)
        }),
{
    let b = bits_to_address(arr_size);
    if b < 1 {
        return None;
    }
    let shift: u8 = 64 - b;
    let mut tries: u32 = 0;
    while tries < MAX_MAGIC_TRIES
        invariant
            shift == 64 - addr_bits(arr_size as int, 0),
            1 <= addr_bits(arr_size as int, 0) <= 64,
        decreases MAX_MAGIC_TRIES - tries,
    {
        let candidate = random_u64() & random_u64() & random_u64();
        if check_magic(mask, candidate, shift, arr_size, occupancies) {
            return Some(candidate);
        }
        tries = tries + 1;
    }
    None
}

impl AttackMagic {
    /// Finds a magic multiplier for the rook on `square` and materializes
    /// its attack-pattern table: one slot per blocker-subset hash, filled
    /// with the ray-cast pattern of that subset.  `None` only when the
    /// bounded random search found no collision-free multiplier.
    pub fn create_attack_magic_rook(square: Square) -> (r: Option<AttackMagic>)
        ensures
            r matches Some(am) ==> am.table_wf_rook(square.as_int()),
            r matches Some(am) ==> am.shift == 64 - (count_bits(am.mask.0) + H),
            r matches Some(am) ==> am.attack_patterns@.len() == pow2(
                (count_bits(am.mask.0) + H) as nat,
            ),
    {
        let mask = create_rook_mask(square);
        AttackMagic::build_table(mask, square, true)
    }

    /// Finds a magic multiplier for the bishop on `square` and
    /// materializes its attack-pattern table.
    pub fn create_attack_magic_bishop(square: Square) -> (r: Option<AttackMagic>)
        ensures
            r matches Some(am) ==> am.table_wf_bishop(square.as_int()),
            r matches Some(am) ==> am.shift == 64 - (count_bits(am.mask.0) + H),
            r matches Some(am) ==> am.attack_patterns@.len() == pow2(
                (count_bits(am.mask.0) + H) as nat,
            ),
    {
        let mask = create_bishop_mask(square);
        AttackMagic::build_table(mask, square, false)
    }

    /// Shared table construction for both sliding pieces.
    fn build_table(mask: BoardMask, square: Square, rook: bool) -> (r: Option<AttackMagic>)
        requires
            rook ==> mask.0 == rook_mask(square.as_int()),
            !rook ==> mask.0 == bishop_mask(square.as_int()),
        ensures
            r matches Some(am) ==> (rook ==> am.table_wf_rook(square.as_int())),
            r matches Some(am) ==> (!rook ==> am.table_wf_bishop(square.as_int())),
            r matches Some(am) ==> am.shift == 64 - (count_bits(am.mask.0) + H),
            r matches Some(am) ==> am.attack_patterns@.len() == pow2(
                (count_bits(am.mask.0) + H) as nat,
            ),
    {
        let ghost s = square.as_int();
        let ones = mask.count_ones();
        if ones >= 15 {
            return None;
        }
        let required_bits: u32 = ones + H;
        let len: usize = 1usize << (required_bits as usize);
        proof {
            lemma_usize_pow2_no_overflow(required_bits as nat);
            lemma_usize_shl_is_mul(1usize, required_bits as usize);
        }
        let shift: u8 = (64 - required_bits) as u8;
        let occupancies = occupancies_from_mask(mask);
        let magic_number = match find_valid_magic_number(mask, len, &occupancies) {
            Some(m) => m,
            None => {
                return None;
            },
        };
        if !check_magic(mask, magic_number, shift, len, &occupancies) {
            return None;
        }
        let mut attack_patterns: Vec<BoardMask> = vec![BoardMask(0); len];
        let mut k: usize = 0;
        while k < occupancies.len()
            invariant
                shift < 64,
                attack_patterns@.len() == len,
                rook ==> mask.0 == rook_mask(s),
                !rook ==> mask.0 == bishop_mask(s),
                s == square.as_int(),
                magic_ok(mask.0, magic_number, shift, len as int, occupancies@),
                k <= occupancies@.len(),
                forall|j: int| 0 <= j < occupancies@.len() ==> #[trigger] subset64(
                    occupancies@[j].0,
                    mask.0,
                ),
                forall|j: int|
                    0 <= j < k ==> #[trigger] attack_patterns@[spec_hash(
                        occupancies@[j].0,
                        mask.0,
                        magic_number,
                        shift,
                    )].0 == (if rook {
                        rook_attacks(s, occupancies@[j].0)
                    } else {
                        bishop_attacks(s, occupancies@[j].0)
                    }),
            decreases occupancies@.len() - k,
        {
            let occ = occupancies[k];
            let h = occ.hash(mask, magic_number, shift);
            let pat = if rook {
                create_rook_attack_pattern(square, occ)
            } else {
                create_bishop_attack_pattern(square, occ)
            };
            proof {
                crate::bits::lemma_subset_bits(occ.0, mask.0);
                crate::bits::lemma_bits_eq(occ.0 & mask.0, occ.0);
                assert(spec_hash(occ.0, mask.0, magic_number, shift) == h);
            }
            attack_patterns[h] = pat;
            proof {
                assert forall|j: int|
                    0 <= j < k + 1 implies #[trigger] attack_patterns@[spec_hash(
                    occupancies@[j].0,
                    mask.0,
                    magic_number,
                    shift,
                )].0 == (if rook {
                    rook_attacks(s, occupancies@[j].0)
                } else {
                    bishop_attacks(s, occupancies@[j].0)
                }) by {
                    if j < k {
                        assert(spec_hash(occupancies@[j].0, mask.0, magic_number, shift)
                            != spec_hash(occupancies@[k as int].0, mask.0, magic_number, shift));
                    }
                }
            }
            k = k + 1;
        }
        let am = AttackMagic { mask, magic_number, shift, attack_patterns };
        proof {
            assert forall|o: u64| #[trigger]
                subset64(o, am.mask.0) implies 0 <= spec_hash(
                o,
                am.mask.0,
                am.magic_number,
                am.shift,
            ) < am.attack_patterns.len() && am.attack_patterns[spec_hash(
                o,
                am.mask.0,
                am.magic_number,
                am.shift,
            )].0 == (if rook {
                rook_attacks(s, o)
            } else {
                bishop_attacks(s, o)
            }) by {
                let j = choose|j: int|
                    0 <= j < occupancies@.len() && occupancies@[j].0 == o;
            }
            assert forall|o1: u64, o2: u64|
                #![trigger subset64(o1, am.mask.0), subset64(o2, am.mask.0)]
                subset64(o1, am.mask.0) && subset64(o2, am.mask.0) && o1 != o2 implies spec_hash(
                o1,
                am.mask.0,
                am.magic_number,
                am.shift,
            ) != spec_hash(o2, am.mask.0, am.magic_number, am.shift) by {
                let j1 = choose|j: int|
                    0 <= j < occupancies@.len() && occupancies@[j].0 == o1;
                let j2 = choose|j: int|
                    0 <= j < occupancies@.len() && occupancies@[j].0 == o2;
                assert(spec_hash(occupancies@[j1].0, am.mask.0, am.magic_number, am.shift)
                    != spec_hash(occupancies@[j2].0, am.mask.0, am.magic_number, am.shift));
            }
        }
        Some(am)
    }
}

impl AttackMagic {
    /// Checks a table of unknown provenance (one read back from a cache)
    /// against the square it claims to serve: the blocker mask, the hash
    /// bounds, collision freedom, and every stored pattern are compared
    /// with freshly computed values.  The answer is exactly whether the
    /// table is sound for that square.
    pub fn validate(&self, square: Square, rook: bool) -> (ok: bool)
        ensures
            rook ==> (ok <==> self.table_wf_rook(square.as_int())),
            !rook ==> (ok <==> self.table_wf_bishop(square.as_int())),
    {
        let ghost s = square.as_int();
        let want_mask = if rook {
            create_rook_mask(square)
        } else {
            create_bishop_mask(square)
        };
        if self.mask.0 != want_mask.0 {
            return false;
        }
        if self.shift >= 64 {
            return false;
        }
        let occupancies = occupancies_from_mask(self.mask);
        let len = self.attack_patterns.len();
        if !check_magic(self.mask, self.magic_number, self.shift, len, &occupancies) {
            proof {
                // a sound table hashes the listed subsets exactly as the
                // rejected candidate check demands, so soundness is ruled out
                if self.hash_wf() {
                    assert forall|j: int|
                        0 <= j < occupancies@.len() implies 0 <= #[trigger] spec_hash(
                        occupancies@[j].0,
                        self.mask.0,
                        self.magic_number,
                        self.shift,
                    ) < len by {
                        assert(subset64(occupancies@[j].0, self.mask.0));
                    }
                    assert forall|j1: int, j2: int|
                        #![trigger spec_hash(occupancies@[j1].0, self.mask.0, self.magic_number, self.shift), spec_hash(occupancies@[j2].0, self.mask.0, self.magic_number, self.shift)]
                        0 <= j1 < occupancies@.len() && 0 <= j2 < occupancies@.len() && j1 != j2
                        implies spec_hash(
                        occupancies@[j1].0,
                        self.mask.0,
                        self.magic_number,
                        self.shift,
                    ) != spec_hash(
                        occupancies@[j2].0,
                        self.mask.0,
                        self.magic_number,
                        self.shift,
                    ) by {
                        assert(subset64(occupancies@[j1].0, self.mask.0));
                        assert(subset64(occupancies@[j2].0, self.mask.0));
                        assert(occupancies@[j1].0 != occupancies@[j2].0);
                    }
                    assert(magic_ok(
                        self.mask.0,
                        self.magic_number,
                        self.shift,
                        len as int,
                        occupancies@,
                    ));
                    assert(false);
                }
            }
            return false;
        }
        let mut k: usize = 0;
        while k < occupancies.len()
            invariant
                self.shift < 64,
                rook ==> self.mask.0 == rook_mask(s),
                !rook ==> self.mask.0 == bishop_mask(s),
                s == square.as_int(),
                len == self.attack_patterns@.len(),
                magic_ok(self.mask.0, self.magic_number, self.shift, len as int, occupancies@),
                k <= occupancies@.len(),
                forall|j: int| 0 <= j < occupancies@.len() ==> #[trigger] subset64(
                    occupancies@[j].0,
                    self.mask.0,
                ),
                forall|j: int|
                    0 <= j < k ==> #[trigger] self.attack_patterns@[spec_hash(
                        occupancies@[j].0,
                        self.mask.0,
                        self.magic_number,
                        self.shift,
                    )].0 == (if rook {
                        rook_attacks(s, occupancies@[j].0)
                    } else {
                        bishop_attacks(s, occupancies@[j].0)
                    }),
            decreases occupancies@.len() - k,
        {
            let occ = occupancies[k];
            let h = occ.hash(self.mask, self.magic_number, self.shift);
            let pat = if rook {
                create_rook_attack_pattern(square, occ)
            } else {
                create_bishop_attack_pattern(square, occ)
            };
            proof {
                crate::bits::lemma_subset_bits(occ.0, self.mask.0);
                crate::bits::lemma_bits_eq(occ.0 & self.mask.0, occ.0);
                assert(spec_hash(occ.0, self.mask.0, self.magic_number, self.shift) == h);
            }
            if self.attack_patterns[h].0 != pat.0 {
                proof {
                    // a sound table stores exactly the ray-cast pattern of
                    // this subset at its hash, so soundness is ruled out
                    if (rook && self.table_wf_rook(s)) || (!rook && self.table_wf_bishop(s)) {
                        assert(subset64(occ.0, self.mask.0));
                        assert(false);
                    }
                }
                return false;
            }
            k = k + 1;
        }
        proof {
            assert forall|o: u64| #[trigger]
                subset64(o, self.mask.0) implies 0 <= spec_hash(
                o,
                self.mask.0,
                self.magic_number,
                self.shift,
            ) < self.attack_patterns.len() && self.attack_patterns[spec_hash(
                o,
                self.mask.0,
                self.magic_number,
                self.shift,
            )].0 == (if rook {
                rook_attacks(s, o)
            } else {
                bishop_attacks(s, o)
            }) by {
                let j = choose|j: int| 0 <= j < occupancies@.len() && occupancies@[j].0 == o;
            }
            assert forall|o1: u64, o2: u64|
                #![trigger subset64(o1, self.mask.0), subset64(o2, self.mask.0)]
                subset64(o1, self.mask.0) && subset64(o2, self.mask.0) && o1 != o2 implies
                spec_hash(o1, self.mask.0, self.magic_number, self.shift) != spec_hash(
                o2,
                self.mask.0,
                self.magic_number,
                self.shift,
            ) by {
                let j1 = choose|j: int| 0 <= j < occupancies@.len() && occupancies@[j].0 == o1;
                let j2 = choose|j: int| 0 <= j < occupancies@.len() && occupancies@[j].0 == o2;
                assert(spec_hash(occupancies@[j1].0, self.mask.0, self.magic_number, self.shift)
                    != spec_hash(occupancies@[j2].0, self.mask.0, self.magic_number, self.shift));
            }
        }
        true
    }
}

/// Magic-hash injectivity law: under a sound table, two distinct blocker
/// subsets of the mask always hash to distinct indices, both inside the
/// pattern array.
pub proof fn lemma_magic_hash_injective(am: AttackMagic, o1: u64, o2: u64)
    requires
        am.hash_wf(),
        subset64(o1, am.mask.0),
        subset64(o2, am.mask.0),
        o1 != o2,
    ensures
        0 <= spec_hash(o1, am.mask.0, am.magic_number, am.shift) < am.attack_patterns.len(),
        0 <= spec_hash(o2, am.mask.0, am.magic_number, am.shift) < am.attack_patterns.len(),
        spec_hash(o1, am.mask.0, am.magic_number, am.shift) != spec_hash(
            o2,
            am.mask.0,
            am.magic_number,
            am.shift,
        ),
{
}

} // verus!
