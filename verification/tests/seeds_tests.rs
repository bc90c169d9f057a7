use zerodao::challenges;
use zerodao::currency::Currency;
use zerodao::perbill::Perbill;
use zerodao::primitives::TIRStep;
use zerodao::refresh_reputation;
use zerodao::refresh_seeds;
use zerodao::reputation;
use zerodao::runtime::Runtime;
use zerodao::seeds::{self, SeedsBase};
use zerodao::system::{DispatchError, Origin, RuntimeEvent, System};
use zerodao::tokens;
use zerodao::trust;

const ALICE: u64 = 1;
const BOB: u64 = 2;

fn new_runtime() -> Runtime {
    Runtime {
        system: System::new(1),
        currency: Currency::new(),
        tokens: tokens::Pallet::new(tokens::Config { social_pool: 10000 }),
        reputation: reputation::Pallet::genesis(&reputation::GenesisConfig { period: 10 }),
        seeds: seeds::Pallet::new(),
        trust: trust::Pallet::new(trust::Config { damping_factor: Perbill::from_percent(100), max_trust_count: 600 }),
        challenges: challenges::Pallet::new(challenges::Config { challenge_timeout: 10, challenge_staking_amount: 100 }),
        refresh_reputation: refresh_reputation::Pallet::new(refresh_reputation::Config {
            max_update_count: 4,
            update_staking_amount: 1000,
            confirmation_period: 120,
            ref_repu_timeout: 100,
        }),
        refresh_seeds: refresh_seeds::Pallet::new(refresh_seeds::Config {
            seed_staking_amount: 1_000_000_000,
            seed_challenge_amount: 100_000_000,
            seed_reserv_staking: 900_000_000,
            max_seed_count: 2,
            confirmation_period: 120,
        }),
    }
}

fn initialize_seeds(rt: &mut Runtime, seeds: Vec<u64>) {
    for seed in seeds.iter() {
        rt.seeds.add_seed(&mut rt.system, seed);
    }
}

#[test]
fn get_seed_count_should_work() {
    let mut rt = new_runtime();
    assert_eq!(rt.seeds.get_seed_count(), 0);
    initialize_seeds(&mut rt, vec![1u64, 2u64, 3u64, 4u64, 5u64]);
    assert_eq!(rt.seeds.get_seed_count(), 5);
}

#[test]
fn is_seed_should_work() {
    let mut rt = new_runtime();
    initialize_seeds(&mut rt, vec![1u64]);
    assert_eq!(rt.seeds.is_seed(&1u64), true);
    assert_eq!(rt.seeds.is_seed(&2u64), false);
}

#[test]
fn remove_all_should_work() {
    let mut rt = new_runtime();
    initialize_seeds(&mut rt, vec![1u64, 2u64, 3u64, 4u64, 5u64, 6u64]);
    assert_eq!(rt.seeds.get_seed_count(), 6);
    rt.seeds.remove_all();
    assert_eq!(rt.seeds.get_seed_count(), 0);
    assert!(rt.system.has_event(&RuntimeEvent::Seeds(seeds::Event::SeedAdded(1))));
}

#[test]
fn new_seed_test() {
    let mut rt = new_runtime();
    assert_eq!(seeds::Pallet::new_seed(&mut rt, Origin::signed(ALICE), ALICE), Err(DispatchError::BadOrigin));
    assert!(seeds::Pallet::new_seed(&mut rt, Origin::root(), ALICE).is_ok());
    assert_eq!(rt.seeds.is_seed(&ALICE), true);
    assert_eq!(
        seeds::Pallet::new_seed(&mut rt, Origin::root(), ALICE),
        Err(DispatchError::Seeds(seeds::Error::AlreadySeedUser))
    );
    rt.reputation.set_step(&TIRStep::Reputation);
    assert_eq!(
        seeds::Pallet::new_seed(&mut rt, Origin::root(), BOB),
        Err(DispatchError::Seeds(seeds::Error::StatusErr))
    );
}

#[test]
fn remove_seed_test() {
    let mut rt = new_runtime();
    assert_eq!(seeds::Pallet::remove_seed(&mut rt, Origin::signed(ALICE), ALICE), Err(DispatchError::BadOrigin));
    assert_eq!(
        seeds::Pallet::remove_seed(&mut rt, Origin::root(), ALICE),
        Err(DispatchError::Seeds(seeds::Error::NotSeedUser))
    );
    assert!(seeds::Pallet::new_seed(&mut rt, Origin::root(), ALICE).is_ok());
    assert!(seeds::Pallet::new_seed(&mut rt, Origin::root(), BOB).is_ok());
    assert!(seeds::Pallet::remove_seed(&mut rt, Origin::root(), ALICE).is_ok());

    assert!(rt.system.has_event(&RuntimeEvent::Seeds(seeds::Event::SeedRemoved(ALICE))));

    assert_eq!(rt.seeds.is_seed(&ALICE), false);
    assert_eq!(rt.seeds.get_seed_count(), 1);

    rt.reputation.set_step(&TIRStep::Reputation);
    assert_eq!(
        seeds::Pallet::remove_seed(&mut rt, Origin::root(), BOB),
        Err(DispatchError::Seeds(seeds::Error::StatusErr))
    );
}

#[test]
fn seeds_are_kept_in_order() {
    let mut rt = new_runtime();
    initialize_seeds(&mut rt, vec![9u64, 3, 7, 3]);
    assert_eq!(rt.seeds.get_seeds().0, vec![3u64, 7, 9]);
}

#[test]
fn seeds_base_adds_and_counts_seeds() {
    let mut p = seeds::Pallet::new();
    let mut sys = System::new(1);
    SeedsBase::add_seed(&mut p, &mut sys, &42);
    SeedsBase::add_seed(&mut p, &mut sys, &7);
    SeedsBase::add_seed(&mut p, &mut sys, &42);
    assert!(SeedsBase::is_seed(&p, &42));
    assert!(!SeedsBase::is_seed(&p, &8));
    assert_eq!(SeedsBase::get_seed_count(&p), 2);
    SeedsBase::remove_all(&mut p);
    assert_eq!(SeedsBase::get_seed_count(&p), 0);
}
