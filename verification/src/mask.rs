//! A 64-bit set of squares.
//!
//! `BoardMask` carries attack patterns, blocker masks and every other
//! generic square set.  Bit `i` of the word stands for square `i`.

use crate::bits::{bit64, count_bits, count_bits_upto, lemma_bit_or, lemma_bit_single};
use crate::square::Square;
use vstd::prelude::*;

verus! {

/// The one-bit set holding exactly `s`.
pub open spec fn square_bit(s: Square) -> u64 {
    1u64 << (s.as_int() as u64)
}

/// The indices of the squares of `m` below `n`, in ascending order.
pub open spec fn squares_upto(m: u64, n: nat) -> Seq<int>
    decreases n,
{
    if n == 0 {
        Seq::empty()
    } else {
        squares_upto(m, (n - 1) as nat) + if bit64(m, (n - 1) as u64) {
            seq![(n - 1) as int]
        } else {
            Seq::empty()
        }
    }
}

/// `m` with the squares of `sqs` added, taken front to back.
pub open spec fn with_squares_spec(m: u64, sqs: Seq<Square>) -> u64
    decreases sqs.len(),
{
    if sqs.len() == 0 {
        m
    } else {
        with_squares_spec(m, sqs.drop_last()) | square_bit(sqs.last())
    }
}

/// A set of squares of the board, as one bit per square.
#[derive(Debug, Clone, Copy, PartialEq, Eq, Structural)]
pub struct BoardMask(pub u64);

impl Default for BoardMask {
    /// The empty set.
    fn default() -> (r: Self)
        ensures
            r.0 == 0u64,
    {
        BoardMask(0)
    }
}

impl BoardMask {
    /// Square `s` is in the set.
    pub open spec fn spec_contains(self, s: Square) -> bool {
        bit64(self.0, s.as_int() as u64)
    }

    /// Adds the square to the set.
    pub fn add_square(&mut self, square: Square)
        ensures
            final(self).0 == old(self).0 | square_bit(square),
    {
        self.0 = self.0 | (1u64 << square.as_u8());
    }

    /// The set with the square added.
    pub fn with_square(&self, square: Square) -> (r: Self)
        ensures
            r.0 == self.0 | square_bit(square),
    {
        BoardMask(self.0 | (1u64 << square.as_u8()))
    }

    /// Removes the square from the set.
    pub fn remove_square(&mut self, square: Square)
        ensures
            final(self).0 == old(self).0 & !square_bit(square),
    {
        self.0 = self.0 & !(1u64 << square.as_u8());
    }

    /// The set with the square removed.
    pub fn with_square_removed(&self, square: Square) -> (r: Self)
        ensures
            r.0 == self.0 & !square_bit(square),
    {
        BoardMask(self.0 & !(1u64 << square.as_u8()))
    }

    /// Whether the square is in the set.
    pub fn contains(&self, square: Square) -> (r: bool)
        ensures
            r == self.spec_contains(square),
    {
        let b = square.as_u8();
        proof {
            lemma_bit_and_one(self.0, b as u64);
        }
        self.0 & (1u64 << b) != 0
    }

    /// The number of squares in the set.
    pub fn count_ones(&self) -> (r: u32)
        ensures
            r == count_bits(self.0),
    {
        let mut n: u32 = 0;
        let mut i: u8 = 0;
        while i < 64
            invariant
                i <= 64,
                n <= i,
                n == count_bits_upto(self.0, i as nat),
            decreases 64 - i,
        {
            proof {
                lemma_bit_and_one(self.0, i as u64);
            }
            if self.0 & (1u64 << i) != 0 {
                n = n + 1;
            }
            i = i + 1;
        }
        n
    }

    /// Adds every square of the list to the set, front to back.
    pub fn add_squares(&mut self, squares: &Vec<Square>)
        ensures
            final(self).0 == with_squares_spec(old(self).0, squares@),
    {
        let ghost m0: u64 = self.0;
        let mut k: usize = 0;
        while k < squares.len()
            invariant
                k <= squares@.len(),
                self.0 == with_squares_spec(m0, squares@.take(k as int)),
            decreases squares@.len() - k,
        {
            self.add_square(squares[k]);
            proof {
                assert(squares@.take(k + 1).drop_last() =~= squares@.take(k as int));
                assert(squares@.take(k + 1).last() == squares@[k as int]);
            }
            k = k + 1;
        }
        proof {
            assert(squares@.take(squares@.len() as int) =~= squares@);
        }
    }

    /// The squares of the set, in ascending index order.
    pub fn as_squares(&self) -> (r: Vec<Square>)
        ensures
            r@.map_values(|s: Square| s.as_int()) == squares_upto(self.0, 64),
    {
        let mut v: Vec<Square> = Vec::new();
        let mut i: u8 = 0;
        while i < 64
            invariant
                i <= 64,
                v@.map_values(|s: Square| s.as_int()) =~= squares_upto(self.0, i as nat),
            decreases 64 - i,
        {
            proof {
                lemma_bit_and_one(self.0, i as u64);
            }
            if self.0 & (1u64 << i) != 0 {
                let sq = match Square::new(i) {
                    Ok(sq) => sq,
                    Err(_) => {
                        proof {
                            assert(false);
                        }
                        return v;
                    },
                };
                v.push(sq);
            }
            i = i + 1;
        }
        v
    }
}

/// Membership in a set equals the one-bit test the board code performs.
pub proof fn lemma_bit_and_one(m: u64, i: u64)
    requires
        i < 64,
    ensures
        (m & (1u64 << i) != 0) <==> bit64(m, i),
{
    assert((m & (1u64 << i) != 0) <==> ((m >> i) & 1u64 == 1u64)) by (bit_vector)
        requires
            i < 64,
    ;
}

/// What `squares_upto` holds: exactly the set's squares below `n`.
pub proof fn lemma_squares_upto_membership(m: u64, n: nat, i: int)
    requires
        n <= 64,
    ensures
        squares_upto(m, n).contains(i) <==> (0 <= i < n && bit64(m, i as u64)),
    decreases n,
{
    if n > 0 {
        let prev = squares_upto(m, (n - 1) as nat);
        let cur = squares_upto(m, n);
        lemma_squares_upto_membership(m, (n - 1) as nat, i);
        if bit64(m, (n - 1) as u64) {
            if cur.contains(i) {
                let k = choose|k: int| 0 <= k < cur.len() && cur[k] == i;
                if k < prev.len() {
                    assert(prev[k] == i);
                    assert(prev.contains(i));
                }
            }
            if prev.contains(i) {
                let k = choose|k: int| 0 <= k < prev.len() && prev[k] == i;
                assert(cur[k] == i);
                assert(cur.contains(i));
            }
            if i == n - 1 {
                assert(cur[prev.len() as int] == i);
                assert(cur.contains(i));
            }
        } else {
            assert(cur =~= prev);
        }
    }
}

} // verus!
