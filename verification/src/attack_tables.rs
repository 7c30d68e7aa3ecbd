//! The complete attack tables: 64 rook magics, 64 bishop magics and the 64
//! knight patterns.
//!
//! Built once, in parallel across squares, and immutable afterwards.
//! Every lookup is promised to equal the deterministic ray cast under the
//! full board occupancy.

use crate::attack_magic::AttackMagic;
use crate::mask::BoardMask;
use crate::move_logic::{
    bishop_attacks, create_knight_attack_pattern, knight_attacks,
    lemma_bishop_attacks_mask_agnostic, lemma_rook_attacks_mask_agnostic, queen_attacks,
    rook_attacks,
};
use crate::occupancy::{spec_hash, Occupancy};
use crate::square::Square;
use rayon::iter::{IntoParallelIterator, ParallelIterator};
use vstd::prelude::*;

verus! {

/// The three 64-entry tables the engine looks attack patterns up in.
///
/// A value of this type is always sound: each entry was either computed
/// and proved here, or read back from outside and checked square by
/// square.
#[derive(Debug)]
pub struct AttackTables {
    rook_tables: Vec<AttackMagic>,
    bishop_tables: Vec<AttackMagic>,
    knight_table: Vec<BoardMask>,
}

impl AttackTables {
    /// Each of the three tables has one sound entry per square.
    #[verifier::type_invariant]
    pub closed spec fn wf(self) -> bool {
        &&& self.rook_tables@.len() == 64
        &&& self.bishop_tables@.len() == 64
        &&& self.knight_table@.len() == 64
        &&& forall|i: int| 0 <= i < 64 ==> (#[trigger] self.rook_tables@[i]).table_wf_rook(i)
        &&& forall|i: int| 0 <= i < 64 ==> (#[trigger] self.bishop_tables@[i]).table_wf_bishop(i)
        &&& forall|i: int| 0 <= i < 64 ==> (#[trigger] self.knight_table@[i]).0 == knight_attacks(i)
    }

    /// The per-square rook magics, for persisting the tables: one sound
    /// rook table per square, in square order.
    pub fn rook_entries(&self) -> (r: &Vec<AttackMagic>)
        ensures
            r@.len() == 64,
            forall|i: int| 0 <= i < 64 ==> (#[trigger] r@[i]).table_wf_rook(i),
    {
        proof {
            use_type_invariant(self);
        }
        &self.rook_tables
    }

    /// The per-square bishop magics, for persisting the tables: one sound
    /// bishop table per square, in square order.
    pub fn bishop_entries(&self) -> (r: &Vec<AttackMagic>)
        ensures
            r@.len() == 64,
            forall|i: int| 0 <= i < 64 ==> (#[trigger] r@[i]).table_wf_bishop(i),
    {
        proof {
            use_type_invariant(self);
        }
        &self.bishop_tables
    }

    /// The per-square knight patterns, for persisting the tables: the
    /// pattern of square `i` at index `i`.
    pub fn knight_entries(&self) -> (r: &Vec<BoardMask>)
        ensures
            r@.len() == 64,
            forall|i: int| 0 <= i < 64 ==> (#[trigger] r@[i]).0 == knight_attacks(i),
    {
        proof {
            use_type_invariant(self);
        }
        &self.knight_table
    }

    /// Computes the magic tables for every square, the sliding pieces in
    /// parallel, and the knight patterns.  `None` only when some magic
    /// search gave up.
    pub fn create_tables() -> (r: Option<AttackTables>) {
        let mut rooks = par_rook_magics();
        let mut bishops = par_bishop_magics();
        let knight_table = par_knight_patterns();
        let mut rook_tables: Vec<AttackMagic> = Vec::new();
        let mut bishop_tables: Vec<AttackMagic> = Vec::new();
        let mut i: usize = 0;
        while i < 64
            invariant
                i <= 64,
                rooks@.len() == 64 - i,
                bishops@.len() == 64 - i,
                rook_tables@.len() == i,
                bishop_tables@.len() == i,
                forall|j: int|
                    #![trigger rooks@[j]]
                    0 <= j < 64 - i ==> (rooks@[j] matches Some(am) ==> am.table_wf_rook(i + j)),
                forall|j: int|
                    #![trigger bishops@[j]]
                    0 <= j < 64 - i ==> (bishops@[j] matches Some(am) ==> am.table_wf_bishop(
                        i + j,
                    )),
                forall|j: int| 0 <= j < i ==> (#[trigger] rook_tables@[j]).table_wf_rook(j),
                forall|j: int| 0 <= j < i ==> (#[trigger] bishop_tables@[j]).table_wf_bishop(j),
            decreases 64 - i,
        {
            proof {
                assert(rooks@.len() > 0);
            }
            let rm = match rooks.remove(0) {
                Some(am) => am,
                None => {
                    return None;
                },
            };
            let bm = match bishops.remove(0) {
                Some(am) => am,
                None => {
                    return None;
                },
            };
            proof {
                assert(rm.table_wf_rook(i as int));
                assert(bm.table_wf_bishop(i as int));
            }
            rook_tables.push(rm);
            bishop_tables.push(bm);
            i = i + 1;
        }
        Some(AttackTables { rook_tables, bishop_tables, knight_table })
    }

    /// Adopts tables of unknown provenance (read back from a cache) after
    /// checking every entry against freshly computed values.  The answer
    /// is exactly whether all three tables have 64 entries and every entry
    /// is sound for its square: a valid cache is always adopted, anything
    /// else is refused.
    pub fn from_parts(
        rook_tables: Vec<AttackMagic>,
        bishop_tables: Vec<AttackMagic>,
        knight_table: Vec<BoardMask>,
    ) -> (r: Option<AttackTables>)
        ensures
            r is Some <==> (rook_tables@.len() == 64 && bishop_tables@.len() == 64
                && knight_table@.len() == 64 && forall|i: int|
                0 <= i < 64 ==> ((#[trigger] rook_tables@[i]).table_wf_rook(i)
                    && bishop_tables@[i].table_wf_bishop(i) && knight_table@[i].0
                    == knight_attacks(i))),
    {
        if rook_tables.len() != 64 || bishop_tables.len() != 64 || knight_table.len() != 64 {
            return None;
        }
        let mut i: usize = 0;
        while i < 64
            invariant
                i <= 64,
                rook_tables@.len() == 64,
                bishop_tables@.len() == 64,
                knight_table@.len() == 64,
                forall|j: int| 0 <= j < i ==> (#[trigger] rook_tables@[j]).table_wf_rook(j),
                forall|j: int| 0 <= j < i ==> (#[trigger] bishop_tables@[j]).table_wf_bishop(j),
                forall|j: int| 0 <= j < i ==> (#[trigger] knight_table@[j]).0 == knight_attacks(j),
            decreases 64 - i,
        {
            let sq = match Square::new(i as u8) {
                Ok(sq) => sq,
                Err(_) => {
                    return None;
                },
            };
            if !rook_tables[i].validate(sq, true) {
                proof {
                    assert(!rook_tables@[i as int].table_wf_rook(i as int));
                }
                return None;
            }
            if !bishop_tables[i].validate(sq, false) {
                proof {
                    assert(!bishop_tables@[i as int].table_wf_bishop(i as int));
                }
                return None;
            }
            if knight_table[i].0 != create_knight_attack_pattern(sq).0 {
                proof {
                    assert(knight_table@[i as int].0 != knight_attacks(i as int));
                }
                return None;
            }
            i = i + 1;
        }
        proof {
            assert forall|i: int|
                0 <= i < 64 implies ((#[trigger] rook_tables@[i]).table_wf_rook(i)
                && bishop_tables@[i].table_wf_bishop(i) && knight_table@[i].0 == knight_attacks(
                i,
            )) by {}
        }
        Some(AttackTables { rook_tables, bishop_tables, knight_table })
    }

    /// The squares a rook standing at `square` attacks under the given
    /// occupancy: one magic-hash lookup.
    pub fn get_attack_pattern_rook(&self, square: Square, occupancy: Occupancy) -> (r: BoardMask)
        ensures
            r.0 == rook_attacks(square.as_int(), occupancy.0),
    {
        proof {
            use_type_invariant(self);
        }
        let idx = square.as_index();
        let am = &self.rook_tables[idx];
        proof {
            let s = square.as_int();
            let oc = occupancy.0;
            let mk = am.mask.0;
            let o = oc & mk;
            assert((oc & mk) & mk == oc & mk) by (bit_vector);
            assert(crate::bits::subset64(o, mk));
            lemma_rook_attacks_mask_agnostic(s, oc);
            assert(spec_hash(occupancy.0, am.mask.0, am.magic_number, am.shift) == spec_hash(
                o,
                am.mask.0,
                am.magic_number,
                am.shift,
            ));
        }
        let h = occupancy.hash(am.mask, am.magic_number, am.shift);
        am.attack_patterns[h]
    }

    /// The squares a bishop standing at `square` attacks under the given
    /// occupancy: one magic-hash lookup.
    pub fn get_attack_pattern_bishop(&self, square: Square, occupancy: Occupancy) -> (r: BoardMask)
        ensures
            r.0 == bishop_attacks(square.as_int(), occupancy.0),
    {
        proof {
            use_type_invariant(self);
        }
        let idx = square.as_index();
        let am = &self.bishop_tables[idx];
        proof {
            let s = square.as_int();
            let oc = occupancy.0;
            let mk = am.mask.0;
            let o = oc & mk;
            assert((oc & mk) & mk == oc & mk) by (bit_vector);
            assert(crate::bits::subset64(o, mk));
            lemma_bishop_attacks_mask_agnostic(s, oc);
            assert(spec_hash(occupancy.0, am.mask.0, am.magic_number, am.shift) == spec_hash(
                o,
                am.mask.0,
                am.magic_number,
                am.shift,
            ));
        }
        let h = occupancy.hash(am.mask, am.magic_number, am.shift);
        am.attack_patterns[h]
    }

    /// The squares a queen standing at `square` attacks under the given
    /// occupancy: the union of the rook and bishop patterns.
    pub fn get_attack_pattern_queen(&self, square: Square, occupancy: Occupancy) -> (r: BoardMask)
        ensures
            r.0 == queen_attacks(square.as_int(), occupancy.0),
            r.0 == rook_attacks(square.as_int(), occupancy.0) | bishop_attacks(
                square.as_int(),
                occupancy.0,
            ),
    {
        let rook = self.get_attack_pattern_rook(square, occupancy);
        let bishop = self.get_attack_pattern_bishop(square, occupancy);
        BoardMask(rook.0 | bishop.0)
    }

    /// The squares a knight standing at `square` attacks; the knight is no
    /// sliding piece, so no occupancy is involved.
    pub fn get_attack_pattern_knight(&self, square: Square) -> (r: BoardMask)
        ensures
            r.0 == knight_attacks(square.as_int()),
    {
        proof {
            use_type_invariant(self);
        }
        self.knight_table[square.as_index()]
    }
}

/// Computes a rook magic for one square index, a unit of the parallel
/// build.
fn rook_magic_for_index(i: usize) -> (r: Option<AttackMagic>)
    ensures
        r matches Some(am) ==> (i < 64 && am.table_wf_rook(i as int)),
{
    if i >= 64 {
        return None;
    }
    let sq = match Square::new(i as u8) {
        Ok(sq) => sq,
        Err(_) => {
            return None;
        },
    };
    AttackMagic::create_attack_magic_rook(sq)
}

/// Computes a bishop magic for one square index, a unit of the parallel
/// build.
fn bishop_magic_for_index(i: usize) -> (r: Option<AttackMagic>)
    ensures
        r matches Some(am) ==> (i < 64 && am.table_wf_bishop(i as int)),
{
    if i >= 64 {
        return None;
    }
    let sq = match Square::new(i as u8) {
        Ok(sq) => sq,
        Err(_) => {
            return None;
        },
    };
    AttackMagic::create_attack_magic_bishop(sq)
}

/// Computes the knight pattern for one square index; off-board indices get
/// the empty pattern.
fn knight_pattern_for_index(i: usize) -> (r: BoardMask)
    ensures
        i < 64 ==> r.0 == knight_attacks(i as int),
{
    if i >= 64 {
        return BoardMask(0);
    }
    match Square::new(i as u8) {
        Ok(sq) => create_knight_attack_pattern(sq),
        Err(_) => BoardMask(0),
    }
}

/// Relies on rayon's parallel range iterator: `map` applies the given
/// function to every index of the range and `collect` keeps index order.
#[verifier::external_body]
fn par_rook_magics() -> (r: Vec<Option<AttackMagic>>)
    ensures
        r@.len() == 64,
        forall|i: int|
            #![trigger r@[i]]
            0 <= i < 64 ==> (r@[i] matches Some(am) ==> am.table_wf_rook(i)),
{
    (0..64usize).into_par_iter().map(rook_magic_for_index).collect()
}

/// Relies on rayon's parallel range iterator: `map` applies the given
/// function to every index of the range and `collect` keeps index order.
#[verifier::external_body]
fn par_bishop_magics() -> (r: Vec<Option<AttackMagic>>)
    ensures
        r@.len() == 64,
        forall|i: int|
            #![trigger r@[i]]
            0 <= i < 64 ==> (r@[i] matches Some(am) ==> am.table_wf_bishop(i)),
{
    (0..64usize).into_par_iter().map(bishop_magic_for_index).collect()
}

/// Relies on rayon's parallel range iterator: `map` applies the given
/// function to every index of the range and `collect` keeps index order.
#[verifier::external_body]
fn par_knight_patterns() -> (r: Vec<BoardMask>)
    ensures
        r@.len() == 64,
        forall|i: int| 0 <= i < 64 ==> (#[trigger] r@[i]).0 == knight_attacks(i),
{
    (0..64usize).into_par_iter().map(knight_pattern_for_index).collect()
}

/// Builds the full attack tables once and drops them; a hook for timing
/// the table construction.
pub fn create_tables() {
    let _ = AttackTables::create_tables();
}

} // verus!
