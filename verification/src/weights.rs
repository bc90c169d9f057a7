//! The weights of calls: a base, a part for each item, and the reads and writes of storage,
//! all added and multiplied without overflow, saturating at the largest weight.
use vstd::prelude::*;

verus! {

/// The weight of one read and of one write of storage.
#[derive(Clone, Copy, PartialEq, Eq, Structural, Debug)]
pub struct DbWeight {
    pub read: u64,
    pub write: u64,
}

/// The weights of storage on RocksDB: 25 microseconds for a read and 100 for a write.
pub fn rocks_db_weight() -> (w: DbWeight)
    ensures
        w == (DbWeight { read: 25_000_000, write: 100_000_000 }),
{
    DbWeight { read: 25_000_000, write: 100_000_000 }
}

/// The measured cost of a call: a base weight and a weight for each item, the reads and
/// the writes of storage, and the reads and writes for each item.
#[derive(Clone, Copy, PartialEq, Eq, Structural, Debug)]
pub struct Formula {
    pub base: u64,
    pub per_item: u64,
    pub reads: u64,
    pub reads_per_item: u64,
    pub writes: u64,
    pub writes_per_item: u64,
}

/// `a + b`, saturating at the largest weight.
pub open spec fn sat_add64(a: int, b: int) -> u64 {
    if a + b > u64::MAX {
        u64::MAX
    } else {
        (a + b) as u64
    }
}

/// `a * b`, saturating at the largest weight.
pub open spec fn sat_mul64(a: int, b: int) -> u64 {
    if a * b > u64::MAX {
        u64::MAX
    } else {
        (a * b) as u64
    }
}

/// The weight of a call with `items` items.
pub open spec fn spec_weight(f: Formula, db: DbWeight, items: u32) -> u64 {
    let w1 = sat_add64(f.base as int, sat_mul64(f.per_item as int, items as int) as int);
    let w2 = sat_add64(w1 as int, sat_mul64(db.read as int, f.reads as int) as int);
    let w3 = sat_add64(
        w2 as int,
        sat_mul64(db.read as int, sat_mul64(f.reads_per_item as int, items as int) as int) as int,
    );
    let w4 = sat_add64(w3 as int, sat_mul64(db.write as int, f.writes as int) as int);
    sat_add64(w4 as int, sat_mul64(db.write as int, sat_mul64(f.writes_per_item as int, items as int) as int) as int)
}

/// `a * b`, saturating.
fn saturating_mul(a: u64, b: u64) -> (r: u64)
    ensures
        r == sat_mul64(a as int, b as int),
{
    match a.checked_mul(b) {
        Some(v) => v,
        None => u64::MAX,
    }
}

/// The weight of a call measured by `f` with `items` items.
pub fn weigh(f: Formula, db: DbWeight, items: u32) -> (w: u64)
    ensures
        w == spec_weight(f, db, items),
{
    let a = items as u64;
    f.base.saturating_add(saturating_mul(f.per_item, a)).saturating_add(saturating_mul(db.read, f.reads)).saturating_add(
        saturating_mul(db.read, saturating_mul(f.reads_per_item, a)),
    ).saturating_add(saturating_mul(db.write, f.writes)).saturating_add(
        saturating_mul(db.write, saturating_mul(f.writes_per_item, a)),
    )
}

} // verus!
