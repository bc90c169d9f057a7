//! The weights of the calls of trust, measured on the reference hardware.
use crate::weights::{weigh, spec_weight, DbWeight, Formula};
use vstd::prelude::*;

verus! {

/// The weights of the calls with the given weights of storage.
#[derive(Clone, Copy, PartialEq, Eq, Structural, Debug)]
pub struct SubstrateWeight {
    pub db: DbWeight,
}

impl SubstrateWeight {
    /// The weights with the weights of storage on RocksDB.
    pub fn rocks_db() -> (w: SubstrateWeight)
        ensures
            w.db == (DbWeight { read: 25_000_000, write: 100_000_000 }),
    {
        SubstrateWeight { db: crate::weights::rocks_db_weight() }
    }

    /// The weight of `trust`.
    pub fn trust(&self) -> (w: u64)
        ensures
            w == spec_weight((Formula { base: 70_800_000, per_item: 0, reads: 3, reads_per_item: 0, writes: 2, writes_per_item: 0 }), self.db, 0),
    {
        weigh(Formula { base: 70_800_000, per_item: 0, reads: 3, reads_per_item: 0, writes: 2, writes_per_item: 0 }, self.db, 0)
    }

    /// The weight of `untrust`.
    pub fn untrust(&self) -> (w: u64)
        ensures
            w == spec_weight((Formula { base: 84_200_000, per_item: 0, reads: 3, reads_per_item: 0, writes: 2, writes_per_item: 0 }), self.db, 0),
    {
        weigh(Formula { base: 84_200_000, per_item: 0, reads: 3, reads_per_item: 0, writes: 2, writes_per_item: 0 }, self.db, 0)
    }
}

} // verus!
