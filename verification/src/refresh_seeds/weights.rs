//! The weights of the calls of selecting seeds, measured on the reference hardware.
use crate::weights::{weigh, spec_weight, DbWeight, Formula};
use vstd::prelude::*;

verus! {

/// The weights of the calls with the given weights of storage.
#[derive(Clone, Copy, PartialEq, Eq, Structural, Debug)]
pub struct SubstrateWeight {
    pub db: DbWeight,
}

impl SubstrateWeight {
    /// The weights with the weights of storage on RocksDB.
    pub fn rocks_db() -> (w: SubstrateWeight)
        ensures
            w.db == (DbWeight { read: 25_000_000, write: 100_000_000 }),
    {
        SubstrateWeight { db: crate::weights::rocks_db_weight() }
    }

    /// The weight of `start`.
    pub fn start(&self) -> (w: u64)
        ensures
            w == spec_weight((Formula { base: 29_400_000, per_item: 0, reads: 1, reads_per_item: 0, writes: 1, writes_per_item: 0 }), self.db, 0),
    {
        weigh(Formula { base: 29_400_000, per_item: 0, reads: 1, reads_per_item: 0, writes: 1, writes_per_item: 0 }, self.db, 0)
    }

    /// The weight of `add`.
    pub fn add(&self) -> (w: u64)
        ensures
            w == spec_weight((Formula { base: 126_600_000, per_item: 0, reads: 7, reads_per_item: 0, writes: 7, writes_per_item: 0 }), self.db, 0),
    {
        weigh(Formula { base: 126_600_000, per_item: 0, reads: 7, reads_per_item: 0, writes: 7, writes_per_item: 0 }, self.db, 0)
    }

    /// The weight of `challenge`.
    pub fn challenge(&self) -> (w: u64)
        ensures
            w == spec_weight((Formula { base: 130_400_000, per_item: 0, reads: 8, reads_per_item: 0, writes: 8, writes_per_item: 0 }), self.db, 0),
    {
        weigh(Formula { base: 130_400_000, per_item: 0, reads: 8, reads_per_item: 0, writes: 8, writes_per_item: 0 }, self.db, 0)
    }

    /// The weight of `examine`.
    pub fn examine(&self) -> (w: u64)
        ensures
            w == spec_weight((Formula { base: 91_000_000, per_item: 0, reads: 5, reads_per_item: 0, writes: 3, writes_per_item: 0 }), self.db, 0),
    {
        weigh(Formula { base: 91_000_000, per_item: 0, reads: 5, reads_per_item: 0, writes: 3, writes_per_item: 0 }, self.db, 0)
    }

    /// The weight of `reply_hash` with `a` items.
    pub fn reply_hash(&self, a: u32) -> (w: u64)
        ensures
            w == spec_weight((Formula { base: 128_881_000, per_item: 129_000, reads: 3, reads_per_item: 0, writes: 3, writes_per_item: 0 }), self.db, a),
    {
        weigh(Formula { base: 128_881_000, per_item: 129_000, reads: 3, reads_per_item: 0, writes: 3, writes_per_item: 0 }, self.db, a)
    }

    /// The weight of `reply_hash_next` with `a` items.
    pub fn reply_hash_next(&self, a: u32) -> (w: u64)
        ensures
            w == spec_weight((Formula { base: 110_099_000, per_item: 103_000, reads: 4, reads_per_item: 0, writes: 3, writes_per_item: 0 }), self.db, a),
    {
        weigh(Formula { base: 110_099_000, per_item: 103_000, reads: 4, reads_per_item: 0, writes: 3, writes_per_item: 0 }, self.db, a)
    }

    /// The weight of `reply_path` with `a` items.
    pub fn reply_path(&self, a: u32) -> (w: u64)
        ensures
            w == spec_weight((Formula { base: 0, per_item: 79_562_000, reads: 8, reads_per_item: 2, writes: 3, writes_per_item: 0 }), self.db, a),
    {
        weigh(Formula { base: 0, per_item: 79_562_000, reads: 8, reads_per_item: 2, writes: 3, writes_per_item: 0 }, self.db, a)
    }

    /// The weight of `reply_path_next` with `a` items.
    pub fn reply_path_next(&self, a: u32) -> (w: u64)
        ensures
            w == spec_weight((Formula { base: 0, per_item: 80_924_000, reads: 9, reads_per_item: 2, writes: 4, writes_per_item: 0 }), self.db, a),
    {
        weigh(Formula { base: 0, per_item: 80_924_000, reads: 9, reads_per_item: 2, writes: 4, writes_per_item: 0 }, self.db, a)
    }

    /// The weight of `reply_num` with `a` items.
    pub fn reply_num(&self, a: u32) -> (w: u64)
        ensures
            w == spec_weight((Formula { base: 0, per_item: 40_388_000, reads: 7, reads_per_item: 2, writes: 2, writes_per_item: 0 }), self.db, a),
    {
        weigh(Formula { base: 0, per_item: 40_388_000, reads: 7, reads_per_item: 2, writes: 2, writes_per_item: 0 }, self.db, a)
    }

    /// The weight of `evidence_of_shorter`.
    pub fn evidence_of_shorter(&self) -> (w: u64)
        ensures
            w == spec_weight((Formula { base: 121_500_000, per_item: 0, reads: 10, reads_per_item: 0, writes: 7, writes_per_item: 0 }), self.db, 0),
    {
        weigh(Formula { base: 121_500_000, per_item: 0, reads: 10, reads_per_item: 0, writes: 7, writes_per_item: 0 }, self.db, 0)
    }

    /// The weight of `number_too_low` with `a` items.
    pub fn number_too_low(&self, a: u32) -> (w: u64)
        ensures
            w == spec_weight((Formula { base: 0, per_item: 51_664_000, reads: 10, reads_per_item: 2, writes: 7, writes_per_item: 0 }), self.db, a),
    {
        weigh(Formula { base: 0, per_item: 51_664_000, reads: 10, reads_per_item: 2, writes: 7, writes_per_item: 0 }, self.db, a)
    }

    /// The weight of `missed_in_hashs`.
    pub fn missed_in_hashs(&self) -> (w: u64)
        ensures
            w == spec_weight((Formula { base: 202_100_000, per_item: 0, reads: 9, reads_per_item: 0, writes: 3, writes_per_item: 0 }), self.db, 0),
    {
        weigh(Formula { base: 202_100_000, per_item: 0, reads: 9, reads_per_item: 0, writes: 3, writes_per_item: 0 }, self.db, 0)
    }

    /// The weight of `missed_in_paths`.
    pub fn missed_in_paths(&self) -> (w: u64)
        ensures
            w == spec_weight((Formula { base: 281_900_000, per_item: 0, reads: 13, reads_per_item: 0, writes: 7, writes_per_item: 0 }), self.db, 0),
    {
        weigh(Formula { base: 281_900_000, per_item: 0, reads: 13, reads_per_item: 0, writes: 7, writes_per_item: 0 }, self.db, 0)
    }

    /// The weight of `invalid_evidence`.
    pub fn invalid_evidence(&self) -> (w: u64)
        ensures
            w == spec_weight((Formula { base: 65_600_000, per_item: 0, reads: 6, reads_per_item: 0, writes: 2, writes_per_item: 0 }), self.db, 0),
    {
        weigh(Formula { base: 65_600_000, per_item: 0, reads: 6, reads_per_item: 0, writes: 2, writes_per_item: 0 }, self.db, 0)
    }

    /// The weight of `harvest_challenge`.
    pub fn harvest_challenge(&self) -> (w: u64)
        ensures
            w == spec_weight((Formula { base: 183_800_000, per_item: 0, reads: 7, reads_per_item: 0, writes: 9, writes_per_item: 0 }), self.db, 0),
    {
        weigh(Formula { base: 183_800_000, per_item: 0, reads: 7, reads_per_item: 0, writes: 9, writes_per_item: 0 }, self.db, 0)
    }

    /// The weight of `harvest_seed`.
    pub fn harvest_seed(&self) -> (w: u64)
        ensures
            w == spec_weight((Formula { base: 300_900_000, per_item: 0, reads: 12, reads_per_item: 0, writes: 9, writes_per_item: 0 }), self.db, 0),
    {
        weigh(Formula { base: 300_900_000, per_item: 0, reads: 12, reads_per_item: 0, writes: 9, writes_per_item: 0 }, self.db, 0)
    }
}

} // verus!
