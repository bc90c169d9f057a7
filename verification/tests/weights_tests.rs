use zerodao::refresh_reputation::weights::SubstrateWeight as RefreshReputationWeight;
use zerodao::refresh_seeds::weights::SubstrateWeight as RefreshSeedsWeight;
use zerodao::trust::weights::SubstrateWeight as TrustWeight;
use zerodao::weights::{rocks_db_weight, weigh, DbWeight, Formula};

#[test]
fn trust_weights_on_rocks_db() {
    let w = TrustWeight::rocks_db();
    assert_eq!(w.trust(), 70_800_000 + 25_000_000 * 3 + 100_000_000 * 2);
    assert_eq!(w.untrust(), 84_200_000 + 25_000_000 * 3 + 100_000_000 * 2);
}

#[test]
fn refresh_weight_grows_with_the_items() {
    let w = RefreshReputationWeight::rocks_db();
    assert_eq!(w.refresh(2), 159_975_572_000);
    assert_eq!(w.refresh(0), 25_000_000 * 7 + 100_000_000 * 6);
    assert!(w.refresh(3) > w.refresh(2));
}

#[test]
fn weights_saturate() {
    let w = RefreshReputationWeight { db: DbWeight { read: u64::MAX, write: 1 } };
    assert_eq!(w.start(), u64::MAX);
    let f = Formula { base: u64::MAX - 1, per_item: 2, reads: 0, reads_per_item: 0, writes: 0, writes_per_item: 0 };
    assert_eq!(weigh(f, rocks_db_weight(), 1), u64::MAX);
}

#[test]
fn seed_weights_without_storage_cost() {
    let w = RefreshSeedsWeight { db: DbWeight { read: 0, write: 0 } };
    assert_eq!(w.start(), 29_400_000);
    assert_eq!(w.reply_hash(10), 128_881_000 + 129_000 * 10);
    assert_eq!(w.harvest_seed(), 300_900_000);
}
