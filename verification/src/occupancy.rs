//! The set of squares currently holding any piece.
//!
//! `Occupancy` has the same shape as a generic square set but is its own
//! type: it is the value that participates in the magic hash.

use crate::bits::bit64;
use crate::mask::{lemma_bit_and_one, square_bit, BoardMask};
use crate::square::Square;
use vstd::prelude::*;

verus! {

/// The dense table index the magic hash assigns to an occupancy:
/// the blocker subset, spread by the multiplier, read off the top bits.
pub open spec fn spec_hash(occ: u64, mask: u64, magic_number: u64, shift: u8) -> int {
    (((occ & mask).wrapping_mul(magic_number) >> (shift as u64)) as usize) as int
}

/// The set of occupied squares, as one bit per square.
#[derive(Debug, Clone, Copy, PartialEq, Eq, Structural)]
pub struct Occupancy(pub u64);

impl Default for Occupancy {
    /// The empty board.
    fn default() -> (r: Self)
        ensures
            r.0 == 0u64,
    {
        Occupancy(0)
    }
}

impl Occupancy {
    /// Square `s` holds a piece.
    pub open spec fn spec_is_occupied(self, s: Square) -> bool {
        bit64(self.0, s.as_int() as u64)
    }

    /// Marks the square as occupied.
    pub fn add_square(&mut self, square: Square)
        ensures
            final(self).0 == old(self).0 | square_bit(square),
    {
        self.0 = self.0 | (1u64 << square.as_u8());
    }

    /// The occupancy with the square marked as occupied.
    pub fn with_square(&self, square: Square) -> (r: Self)
        ensures
            r.0 == self.0 | square_bit(square),
    {
        Occupancy(self.0 | (1u64 << square.as_u8()))
    }

    /// Marks the square as free.
    pub fn remove_square(&mut self, square: Square)
        ensures
            final(self).0 == old(self).0 & !square_bit(square),
    {
        self.0 = self.0 & !(1u64 << square.as_u8());
    }

    /// The occupancy with the square marked as free.
    pub fn with_square_removed(&self, square: Square) -> (r: Self)
        ensures
            r.0 == self.0 & !square_bit(square),
    {
        Occupancy(self.0 & !(1u64 << square.as_u8()))
    }

    /// Whether the square holds a piece.
    pub fn is_occupied(&self, square: Square) -> (r: bool)
        ensures
            r == self.spec_is_occupied(square),
    {
        let b = square.as_u8();
        proof {
            lemma_bit_and_one(self.0, b as u64);
        }
        self.0 & (1u64 << b) != 0
    }

    /// The dense index of this occupancy in an attack-pattern table: mask
    /// off the relevant squares, spread them with the multiplier, and keep
    /// the top bits selected by the shift.
    pub fn hash(&self, mask: BoardMask, magic_number: u64, shift: u8) -> (r: usize)
        requires
            shift < 64,
        ensures
            r == spec_hash(self.0, mask.0, magic_number, shift),
    {
        let h: u64 = (self.0 & mask.0).wrapping_mul(magic_number) >> (shift as u32);
        #[verifier::truncate] (h as usize)
    }
}

} // verus!
