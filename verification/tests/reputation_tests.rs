use zerodao::challenges;
use zerodao::currency::Currency;
use zerodao::perbill::Perbill;
use zerodao::primitives::TIRStep;
use zerodao::refresh_reputation;
use zerodao::refresh_seeds;
use zerodao::reputation;
use zerodao::runtime::Runtime;
use zerodao::seeds;
use zerodao::system::{DispatchError, Origin, System};
use zerodao::tokens;
use zerodao::trust;

const ALICE: u64 = 1;
const INIT_PERIOD: u64 = 10;

fn new_runtime() -> Runtime {
    Runtime {
        system: System::new(1),
        currency: Currency::new(),
        tokens: tokens::Pallet::new(tokens::Config { social_pool: 10000 }),
        reputation: reputation::Pallet::genesis(&reputation::GenesisConfig { period: INIT_PERIOD }),
        seeds: seeds::Pallet::new(),
        trust: trust::Pallet::new(trust::Config { damping_factor: Perbill::from_percent(100), max_trust_count: 600 }),
        challenges: challenges::Pallet::new(challenges::Config { challenge_timeout: 10, challenge_staking_amount: 100 }),
        refresh_reputation: refresh_reputation::Pallet::new(refresh_reputation::Config {
            max_update_count: 4,
            update_staking_amount: 1000,
            confirmation_period: 120,
            ref_repu_timeout: 100,
        }),
        refresh_seeds: refresh_seeds::Pallet::new(refresh_seeds::Config {
            seed_staking_amount: 1_000_000_000,
            seed_challenge_amount: 100_000_000,
            seed_reserv_staking: 900_000_000,
            max_seed_count: 2,
            confirmation_period: 120,
        }),
    }
}

fn new_round(rt: &mut Runtime) -> Result<(), DispatchError> {
    let now = rt.system.block_number();
    rt.reputation.new_round(now)
}

#[test]
fn set_period_should_work() {
    let mut rt = new_runtime();
    assert!(reputation::Pallet::set_period(&mut rt, Origin::root(), 18).is_ok());
    assert_eq!(rt.reputation.system_info().period, 18);
}

#[test]
fn set_period_should_fail() {
    let mut rt = new_runtime();
    assert_eq!(
        reputation::Pallet::set_period(&mut rt, Origin::signed(ALICE), 18),
        Err(DispatchError::BadOrigin)
    );
}

#[test]
fn new_round_should_fail() {
    let mut rt = new_runtime();
    rt.reputation.set_step(&TIRStep::Reputation);
    assert_eq!(
        new_round(&mut rt),
        Err(DispatchError::Reputation(reputation::Error::AlreadyInUpdating))
    );
    rt.reputation.set_step(&TIRStep::Free);
    assert!(new_round(&mut rt).is_ok());
    rt.reputation.set_step(&TIRStep::Free);
    rt.system.set_block_number(INIT_PERIOD - 1);
    assert_eq!(
        new_round(&mut rt),
        Err(DispatchError::Reputation(reputation::Error::IntervalIsTooShort))
    );
}

#[test]
fn new_round_should_work() {
    let mut rt = new_runtime();
    assert!(new_round(&mut rt).is_ok());
    assert_eq!(
        rt.reputation.system_info(),
        reputation::OperationStatus {
            nonce: 1,
            last: 1,
            next: INIT_PERIOD + 1,
            period: INIT_PERIOD,
            step: TIRStep::Free,
        }
    );
    assert_eq!(
        new_round(&mut rt),
        Err(DispatchError::Reputation(reputation::Error::IntervalIsTooShort))
    );
}

#[test]
fn mutate_reputation_should_work() {
    let mut rt = new_runtime();
    rt.reputation.mutate_reputation(&ALICE, &21);
    assert_eq!(rt.reputation.get_reputation_new(&ALICE), Some(21));
}

fn check_refresh(value: u32) {
    let mut rt = new_runtime();
    assert!(new_round(&mut rt).is_ok());
    let init_reputation = reputation::ReputationScore { score: 671u32, nonce: 1 };
    let scores = rt.reputation.get_ir(&ALICE);
    rt.reputation.reputation_scores.insert(ALICE, [init_reputation, scores[1]]);
    rt.reputation.system_info.nonce = 2;
    assert!(rt.reputation.refresh_reputation(&(ALICE, value)).is_ok());

    assert_eq!(rt.reputation.get_reputation_new(&ALICE), Some(value));
    assert_eq!(rt.reputation.get_ir(&ALICE)[0], reputation::ReputationScore { score: value, nonce: 2 });
    assert_eq!(rt.reputation.get_ir(&ALICE)[1], init_reputation);
}

#[test]
fn refresh_reputation_cases() {
    check_refresh(18);
    check_refresh(1345);
    check_refresh(0);
    check_refresh(u32::MAX);
}

#[test]
fn refresh_reputation_should_fail() {
    let mut rt = new_runtime();
    assert!(new_round(&mut rt).is_ok());
    assert!(rt.reputation.refresh_reputation(&(ALICE, 18)).is_ok());

    assert_eq!(
        rt.reputation.refresh_reputation(&(ALICE, 18)),
        Err(DispatchError::Reputation(reputation::Error::ReputationAlreadyUpdated))
    );
}

#[test]
fn last_refresh_at_should_work() {
    let mut rt = new_runtime();
    assert!(new_round(&mut rt).is_ok());
    rt.reputation.set_last_refresh_at(rt.system.block_number());
    assert_eq!(rt.reputation.system_info().last, 1);
    assert_eq!(rt.reputation.get_last_refresh_at(), 1);
    for block in [12000u64, 11, 1666600, 235783] {
        rt.system.set_block_number(block);
        rt.reputation.set_last_refresh_at(rt.system.block_number());
        assert_eq!(rt.reputation.get_last_refresh_at(), block);
    }
}

#[test]
fn set_free_should_work() {
    let mut rt = new_runtime();
    assert!(new_round(&mut rt).is_ok());
    rt.system.set_block_number(150);

    rt.reputation.set_step(&TIRStep::Reputation);
    rt.reputation.set_free(rt.system.block_number());

    assert_eq!(rt.reputation.system_info().last, 150);
    assert_eq!(rt.reputation.system_info().step, TIRStep::Free);
}

#[test]
fn set_free_when_free_changes_nothing() {
    let mut rt = new_runtime();
    let before = rt.reputation.system_info();
    rt.reputation.set_free(77);
    assert_eq!(rt.reputation.system_info(), before);
}

#[test]
fn set_period_refused_while_updating() {
    let mut rt = new_runtime();
    rt.reputation.set_step(&TIRStep::Seed);
    assert_eq!(
        reputation::Pallet::set_period(&mut rt, Origin::root(), 18),
        Err(DispatchError::Reputation(reputation::Error::UnableToSetPeriod))
    );
}

#[test]
fn confirmed_reputation_is_that_of_the_last_round() {
    let mut rt = new_runtime();
    assert!(new_round(&mut rt).is_ok());
    assert!(rt.reputation.refresh_reputation(&(ALICE, 40)).is_ok());
    rt.reputation.set_step(&TIRStep::Reputation);
    assert_eq!(rt.reputation.get_reputation(&ALICE), Some(0));
    rt.reputation.set_free(5);
    assert_eq!(rt.reputation.get_reputation(&ALICE), Some(40));
}
