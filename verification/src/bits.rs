//! Bit-level model of 64-square board sets.
//!
//! Every square set in the engine (attack patterns, blocker masks, the
//! occupancy) is a `u64` whose bit `i` stands for square `i`.  This module
//! defines the membership predicate [`bit64`] together with the handful of
//! bitwise facts the rest of the crate builds on.

use vstd::prelude::*;

verus! {

/// Square `i` is a member of the set `m`.
pub open spec fn bit64(m: u64, i: u64) -> bool {
    i < 64 && (m >> i) & 1u64 == 1u64
}

/// Every square of `a` is a square of `b`.
pub open spec fn subset64(a: u64, b: u64) -> bool {
    a & b == a
}

/// Number of squares of `m` below index `n`.
pub open spec fn count_bits_upto(m: u64, n: nat) -> nat
    decreases n,
{
    if n == 0 {
        0
    } else {
        count_bits_upto(m, (n - 1) as nat) + if bit64(m, (n - 1) as u64) {
            1nat
        } else {
            0nat
        }
    }
}

/// Number of squares of `m`.
pub open spec fn count_bits(m: u64) -> nat {
    count_bits_upto(m, 64)
}

pub broadcast proof fn lemma_bit_or(a: u64, b: u64, i: u64)
    ensures
        #[trigger] bit64(a | b, i) <==> bit64(a, i) || bit64(b, i),
{
    assert((((a | b) >> i) & 1u64 == 1u64) <==> (((a >> i) & 1u64 == 1u64) || ((b >> i) & 1u64
        == 1u64))) by (bit_vector);
}

pub broadcast proof fn lemma_bit_and(a: u64, b: u64, i: u64)
    ensures
        #[trigger] bit64(a & b, i) <==> bit64(a, i) && bit64(b, i),
{
    assert((((a & b) >> i) & 1u64 == 1u64) <==> (((a >> i) & 1u64 == 1u64) && ((b >> i) & 1u64
        == 1u64))) by (bit_vector);
}

pub broadcast proof fn lemma_bit_not(a: u64, i: u64)
    ensures
        #[trigger] bit64(!a, i) <==> (i < 64 && !bit64(a, i)),
{
    assert(i < 64 ==> ((((!a) >> i) & 1u64 == 1u64) <==> !((a >> i) & 1u64 == 1u64)))
        by (bit_vector);
    assert(i >= 64 ==> ((!a) >> i) & 1u64 == 0u64) by (bit_vector);
}

pub broadcast proof fn lemma_bit_single(k: u64, i: u64)
    ensures
        #[trigger] bit64(1u64 << k, i) <==> (i == k && k < 64),
{
    assert((((1u64 << k) >> i) & 1u64 == 1u64) <==> (i == k && k < 64)) by (bit_vector);
}

pub broadcast proof fn lemma_bit_zero(i: u64)
    ensures
        !#[trigger] bit64(0u64, i),
{
    assert((0u64 >> i) & 1u64 == 0u64) by (bit_vector);
}

pub broadcast proof fn lemma_or_zero(a: u64)
    ensures
        #![trigger a | 0u64]
        #![trigger 0u64 | a]
        a | 0u64 == a,
        0u64 | a == a,
{
    assert(a | 0u64 == a && 0u64 | a == a) by (bit_vector);
}

pub proof fn lemma_or_assoc(a: u64, b: u64, c: u64)
    ensures
        (a | b) | c == a | (b | c),
{
    assert((a | b) | c == a | (b | c)) by (bit_vector);
}

/// Two sets with the same members are the same word: helper walking to the
/// lowest bit where the words differ.
proof fn differing_bit(a: u64, b: u64) -> (i: u64)
    requires
        a != b,
    ensures
        i < 64,
        bit64(a, i) != bit64(b, i),
    decreases a + b,
{
    assert(1u64 >> 0u64 == 1u64) by (bit_vector);
    if a & 1u64 != b & 1u64 {
        assert(((a >> 0u64) & 1u64 == 1u64) != ((b >> 0u64) & 1u64 == 1u64)) by (bit_vector)
            requires
                a & 1u64 != b & 1u64,
        ;
        0u64
    } else {
        assert(a >> 1u64 != b >> 1u64 && a >> 1u64 == a / 2 && b >> 1u64 == b / 2 && a + b > 0)
            by (bit_vector)
            requires
                a != b,
                a & 1u64 == b & 1u64,
        ;
        let j = differing_bit(a >> 1u64, b >> 1u64);
        assert((((a >> 1u64) >> 63u64) & 1u64) == 0u64 && (((b >> 1u64) >> 63u64) & 1u64) == 0u64)
            by (bit_vector);
        assert(j < 63);
        assert((((a >> 1u64) >> j) & 1u64) == ((a >> vstd::prelude::add(j, 1)) & 1u64) && (((b
            >> 1u64) >> j) & 1u64) == ((b >> vstd::prelude::add(j, 1)) & 1u64)) by (bit_vector)
            requires
                j < 63,
        ;
        (j + 1) as u64
    }
}

pub proof fn lemma_bits_eq(a: u64, b: u64)
    requires
        forall|i: u64| i < 64 ==> bit64(a, i) == bit64(b, i),
    ensures
        a == b,
{
    if a != b {
        let i = differing_bit(a, b);
        assert(false);
    }
}


/// The empty set has no squares below any bound.
pub proof fn lemma_count_zero(n: nat)
    ensures
        count_bits_upto(0u64, n) == 0,
    decreases n,
{
    broadcast use group_bits;

    if n > 0 {
        lemma_count_zero((n - 1) as nat);
    }
}

/// A one-square set counts one square once the bound passes its index.
pub proof fn lemma_count_single(k: u64, n: nat)
    requires
        k < 64,
        n <= 64,
    ensures
        count_bits_upto(1u64 << k, n) == if (k as nat) < n {
            1nat
        } else {
            0nat
        },
    decreases n,
{
    broadcast use group_bits;

    if n > 0 {
        lemma_count_single(k, (n - 1) as nat);
    }
}

/// Counting distributes over a union of disjoint sets.
pub proof fn lemma_count_disjoint_or(a: u64, b: u64, n: nat)
    requires
        a & b == 0,
    ensures
        count_bits_upto(a | b, n) == count_bits_upto(a, n) + count_bits_upto(b, n),
    decreases n,
{
    broadcast use group_bits;

    if n > 0 {
        lemma_count_disjoint_or(a, b, (n - 1) as nat);
        let i = (n - 1) as u64;
        if bit64(a, i) && bit64(b, i) {
            assert(bit64(a & b, i));
        }
    }
}

/// The square sets the membership lemmas describe.
pub broadcast group group_bits {
    lemma_bit_or,
    lemma_bit_and,
    lemma_bit_not,
    lemma_bit_single,
    lemma_bit_zero,
    lemma_or_zero,
}

/// Every set contains itself.
pub proof fn lemma_subset_refl(a: u64)
    ensures
        subset64(a, a),
{
    assert(a & a == a) by (bit_vector);
}

/// A union contained in a set has both parts contained in it.
pub proof fn lemma_subset_or_split(a: u64, b: u64, c: u64)
    requires
        subset64(a | b, c),
    ensures
        subset64(a, c),
        subset64(b, c),
{
    broadcast use group_bits;

    lemma_subset_bits(a | b, c);
    assert forall|i: u64| i < 64 && bit64(a, i) implies bit64(c, i) by {
        assert(bit64(a | b, i));
    }
    assert forall|i: u64| i < 64 && bit64(b, i) implies bit64(c, i) by {
        assert(bit64(a | b, i));
    }
    lemma_subset_bits(a, c);
    lemma_subset_bits(b, c);
}

/// Containment of whole sets agrees with membership of each square.
pub proof fn lemma_subset_bits(a: u64, b: u64)
    ensures
        subset64(a, b) <==> (forall|i: u64| i < 64 ==> (bit64(a, i) ==> bit64(b, i))),
{
    broadcast use group_bits;

    if subset64(a, b) {
        assert forall|i: u64| i < 64 && bit64(a, i) implies bit64(b, i) by {
            assert(bit64(a & b, i));
        }
    }
    if forall|i: u64| i < 64 ==> (bit64(a, i) ==> bit64(b, i)) {
        assert forall|i: u64| i < 64 implies bit64(a & b, i) == bit64(a, i) by {}
        lemma_bits_eq(a & b, a);
    }
}

} // verus!
