//! The weights of the calls of refreshing reputations, measured on the reference hardware.
use crate::weights::{weigh, spec_weight, DbWeight, Formula};
use vstd::prelude::*;

verus! {

/// The weights of the calls with the given weights of storage.
#[derive(Clone, Copy, PartialEq, Eq, Structural, Debug)]
pub struct SubstrateWeight {
    pub db: DbWeight,
}

impl SubstrateWeight {
    /// The weights with the weights of storage on RocksDB.
    pub fn rocks_db() -> (w: SubstrateWeight)
        ensures
            w.db == (DbWeight { read: 25_000_000, write: 100_000_000 }),
    {
        SubstrateWeight { db: crate::weights::rocks_db_weight() }
    }

    /// The weight of `start`.
    pub fn start(&self) -> (w: u64)
        ensures
            w == spec_weight((Formula { base: 840_100_000, per_item: 0, reads: 27, reads_per_item: 0, writes: 24, writes_per_item: 0 }), self.db, 0),
    {
        weigh(Formula { base: 840_100_000, per_item: 0, reads: 27, reads_per_item: 0, writes: 24, writes_per_item: 0 }, self.db, 0)
    }

    /// The weight of `refresh` with `a` items.
    pub fn refresh(&self, a: u32) -> (w: u64)
        ensures
            w == spec_weight((Formula { base: 0, per_item: 4_300_286_000, reads: 7, reads_per_item: 604, writes: 6, writes_per_item: 602 }), self.db, a),
    {
        weigh(Formula { base: 0, per_item: 4_300_286_000, reads: 7, reads_per_item: 604, writes: 6, writes_per_item: 602 }, self.db, a)
    }

    /// The weight of `harvest_ref_all`.
    pub fn harvest_ref_all(&self) -> (w: u64)
        ensures
            w == spec_weight((Formula { base: 623_700_000, per_item: 0, reads: 5, reads_per_item: 0, writes: 503, writes_per_item: 0 }), self.db, 0),
    {
        weigh(Formula { base: 623_700_000, per_item: 0, reads: 5, reads_per_item: 0, writes: 503, writes_per_item: 0 }, self.db, 0)
    }

    /// The weight of `harvest_ref_all_sweeper`.
    pub fn harvest_ref_all_sweeper(&self) -> (w: u64)
        ensures
            w == spec_weight((Formula { base: 692_300_000, per_item: 0, reads: 6, reads_per_item: 0, writes: 504, writes_per_item: 0 }), self.db, 0),
    {
        weigh(Formula { base: 692_300_000, per_item: 0, reads: 6, reads_per_item: 0, writes: 504, writes_per_item: 0 }, self.db, 0)
    }

    /// The weight of `challenge`.
    pub fn challenge(&self) -> (w: u64)
        ensures
            w == spec_weight((Formula { base: 152_700_000, per_item: 0, reads: 11, reads_per_item: 0, writes: 7, writes_per_item: 0 }), self.db, 0),
    {
        weigh(Formula { base: 152_700_000, per_item: 0, reads: 11, reads_per_item: 0, writes: 7, writes_per_item: 0 }, self.db, 0)
    }

    /// The weight of `challenge_update` with `a` items.
    pub fn challenge_update(&self, a: u32) -> (w: u64)
        ensures
            w == spec_weight((Formula { base: 33_367_000, per_item: 9_208_000, reads: 3, reads_per_item: 1, writes: 2, writes_per_item: 1 }), self.db, a),
    {
        weigh(Formula { base: 33_367_000, per_item: 9_208_000, reads: 3, reads_per_item: 1, writes: 2, writes_per_item: 1 }, self.db, a)
    }

    /// The weight of `harvest_challenge`.
    pub fn harvest_challenge(&self) -> (w: u64)
        ensures
            w == spec_weight((Formula { base: 149_400_000, per_item: 0, reads: 6, reads_per_item: 0, writes: 5, writes_per_item: 0 }), self.db, 0),
    {
        weigh(Formula { base: 149_400_000, per_item: 0, reads: 6, reads_per_item: 0, writes: 5, writes_per_item: 0 }, self.db, 0)
    }

    /// The weight of `arbitral` with `a` items.
    pub fn arbitral(&self, a: u32) -> (w: u64)
        ensures
            w == spec_weight((Formula { base: 228_473_000, per_item: 78_882_000, reads: 21, reads_per_item: 4, writes: 8, writes_per_item: 1 }), self.db, a),
    {
        weigh(Formula { base: 228_473_000, per_item: 78_882_000, reads: 21, reads_per_item: 4, writes: 8, writes_per_item: 1 }, self.db, a)
    }
}

} // verus!
