use zerodao::challenges;
use zerodao::currency::Currency;
use zerodao::perbill::Perbill;
use zerodao::refresh_reputation;
use zerodao::refresh_seeds::{self, Candidate};
use zerodao::reputation;
use zerodao::runtime::Runtime;
use zerodao::seeds;
use zerodao::system::{DispatchError, Origin, RuntimeEvent, System};
use zerodao::tokens;
use zerodao::trust;

type RS = refresh_seeds::Pallet;

const A: u64 = 825241648;
const B: u64 = 842018864;
const C: u64 = 858796080;
const D: u64 = 875573296;
const E: u64 = 892350512;
const CHALLENGER: u64 = 7;
const PATHFINDER: u64 = 8;
const SEED_CHALLENGE_AMOUNT: u128 = 100_000_000;
const SEED_RESERV_STAKING: u128 = 900_000_000;
const SEED_STAKING_AMOUNT: u128 = SEED_CHALLENGE_AMOUNT + SEED_RESERV_STAKING;
const CONFIRMATION_PERIOD: u64 = 120;

fn new_runtime() -> Runtime {
    let mut currency = Currency::new();
    for who in [A, B, C, PATHFINDER, CHALLENGER] {
        currency.deposit(&who, 1000_000_000_000_000u128).unwrap();
    }
    Runtime {
        system: System::new(1),
        currency,
        tokens: tokens::Pallet::new(tokens::Config { social_pool: 10000 }),
        reputation: reputation::Pallet::genesis(&reputation::GenesisConfig { period: 10 }),
        seeds: seeds::Pallet::new(),
        trust: trust::Pallet::new(trust::Config { damping_factor: Perbill::from_percent(100), max_trust_count: 600 }),
        challenges: challenges::Pallet::new(challenges::Config { challenge_timeout: 100, challenge_staking_amount: 100 }),
        refresh_reputation: refresh_reputation::Pallet::new(refresh_reputation::Config {
            max_update_count: 4,
            update_staking_amount: 1_000_000_000,
            confirmation_period: CONFIRMATION_PERIOD,
            ref_repu_timeout: 14_400,
        }),
        refresh_seeds: RS::new(refresh_seeds::Config {
            seed_staking_amount: SEED_STAKING_AMOUNT,
            seed_challenge_amount: SEED_CHALLENGE_AMOUNT,
            seed_reserv_staking: SEED_RESERV_STAKING,
            max_seed_count: 2,
            confirmation_period: CONFIRMATION_PERIOD,
        }),
    }
}

fn rs_err(e: refresh_seeds::Error) -> Result<(), DispatchError> {
    Err(DispatchError::RefreshSeeds(e))
}

fn init_graph(rt: &mut Runtime, score: u64) {
    let paths = vec![[A, B], [A, C], [B, D], [B, E], [D, E], [C, D]];
    for p in paths {
        assert!(trust::Pallet::trust(rt, Origin::signed(p[0]), p[1]).is_ok());
    }
    assert!(RS::start(rt, Origin::signed(PATHFINDER)).is_ok());
    assert!(RS::add(rt, Origin::signed(PATHFINDER), B, score).is_ok());
}

#[test]
fn tests_start_should_work() {
    let mut rt = new_runtime();
    assert!(RS::start(&mut rt, Origin::signed(PATHFINDER)).is_ok());
    assert!(rt.system.has_event(&RuntimeEvent::RefreshSeeds(refresh_seeds::Event::RefershSeedStared(PATHFINDER))));
}

#[test]
fn add_should_work() {
    let mut rt = new_runtime();
    assert_eq!(RS::add(&mut rt, Origin::signed(PATHFINDER), A, 60), rs_err(refresh_seeds::Error::StepNotMatch));
    assert!(RS::start(&mut rt, Origin::signed(PATHFINDER)).is_ok());
    let free_balance = rt.tokens.free_balance(&rt.currency, &PATHFINDER);

    assert!(RS::add(&mut rt, Origin::signed(PATHFINDER), A, 60).is_ok());

    assert!(rt.system.has_event(&RuntimeEvent::RefreshSeeds(refresh_seeds::Event::NewCandidate(PATHFINDER, A, 60))));

    let new_free_balance = rt.tokens.free_balance(&rt.currency, &PATHFINDER);
    assert_eq!(free_balance - new_free_balance, SEED_STAKING_AMOUNT);

    assert_eq!(
        Candidate { score: 60, pathfinder: PATHFINDER, has_challenge: false, add_at: 1 },
        rt.refresh_seeds.get_candidate(&A).unwrap()
    );

    assert_eq!(RS::add(&mut rt, Origin::signed(PATHFINDER), A, 60), rs_err(refresh_seeds::Error::AlreadyExist));
}

#[test]
fn tests_challenge_should_work() {
    let mut rt = new_runtime();
    init_graph(&mut rt, 150);
    assert!(RS::challenge(&mut rt, Origin::signed(CHALLENGER), B, 50).is_ok());

    assert!(rt.system.has_event(&RuntimeEvent::RefreshSeeds(refresh_seeds::Event::NewChallenge(CHALLENGER, B))));

    assert!(rt.refresh_seeds.get_candidate(&B).unwrap().has_challenge);
    assert!(RS::challenge(&mut rt, Origin::signed(CHALLENGER), B, 50).is_err());
    assert_eq!(RS::challenge(&mut rt, Origin::signed(CHALLENGER), A, 50), rs_err(refresh_seeds::Error::NoCandidateExists));
    assert!(RS::add(&mut rt, Origin::signed(PATHFINDER), C, 12).is_ok());
    rt.system.set_block_number(CONFIRMATION_PERIOD + 1);
    assert_eq!(
        RS::challenge(&mut rt, Origin::signed(CHALLENGER), C, 50),
        rs_err(refresh_seeds::Error::SeedAlreadyConfirmed)
    );
}

#[test]
fn challenge_of_a_seed_launches_a_game() {
    let mut rt = new_runtime();
    init_graph(&mut rt, 150);
    assert!(RS::challenge(&mut rt, Origin::signed(CHALLENGER), B, 50).is_ok());
    let m = rt.challenges.get_metadata(&refresh_seeds::app_id(), &B);
    assert_eq!(m.score, 50);
    assert_eq!(m.pathfinder, PATHFINDER);
    assert_eq!(m.challenger, CHALLENGER);
    assert_eq!(m.pool.staking, SEED_CHALLENGE_AMOUNT + 100);
}

#[test]
fn start_twice_is_refused() {
    let mut rt = new_runtime();
    assert!(RS::start(&mut rt, Origin::signed(PATHFINDER)).is_ok());
    assert_eq!(
        RS::start(&mut rt, Origin::signed(PATHFINDER)),
        Err(DispatchError::Reputation(reputation::Error::AlreadyInUpdating))
    );
    assert_eq!(RS::start(&mut rt, Origin::root()), Err(DispatchError::BadOrigin));
}

const TREASURY: u64 = 10;

fn candidates_with_bonus(rt: &mut Runtime, scores: &[(u64, u64)], bonus: u128) {
    rt.currency.deposit(&TREASURY, 1_000_000).unwrap();
    assert!(RS::start(rt, Origin::signed(PATHFINDER)).is_ok());
    for (who, score) in scores {
        assert!(RS::add(rt, Origin::signed(PATHFINDER), *who, *score).is_ok());
    }
    assert!(rt.tokens.increase_bonus(&mut rt.currency, &TREASURY, &bonus).is_ok());
}

#[test]
fn harvest_seed_selects_the_highest_scores() {
    let mut rt = new_runtime();
    let total_bonus: u128 = 991;
    candidates_with_bonus(&mut rt, &[(B, 150), (D, 50), (C, 100)], total_bonus);

    assert_eq!(RS::harvest_seed(&mut rt, Origin::signed(PATHFINDER), B), rs_err(refresh_seeds::Error::StillUnconfirmed));
    assert_eq!(RS::harvest_seed(&mut rt, Origin::root(), B), Err(DispatchError::BadOrigin));

    rt.system.set_block_number(1 + CONFIRMATION_PERIOD + 1);
    assert_eq!(RS::harvest_seed(&mut rt, Origin::signed(PATHFINDER), A), rs_err(refresh_seeds::Error::CandidateNotExist));
    assert!(!rt.refresh_seeds.seeds_confirmed());

    let mut pathfinder_balance = rt.currency.free_balance(&PATHFINDER);
    assert!(RS::harvest_seed(&mut rt, Origin::signed(PATHFINDER), B).is_ok());
    let bonus_1 = total_bonus / 2;
    pathfinder_balance += bonus_1 + SEED_STAKING_AMOUNT;
    assert_eq!(rt.currency.free_balance(&PATHFINDER), pathfinder_balance);
    assert!(rt.seeds.is_seed(&B));
    assert!(rt.refresh_seeds.seeds_confirmed());
    assert!(rt.system.has_event(&RuntimeEvent::RefreshSeeds(refresh_seeds::Event::SeedsSelected(2))));
    assert!(rt.system.has_event(&RuntimeEvent::RefreshSeeds(refresh_seeds::Event::SeedHarvested(PATHFINDER, B))));
    assert_eq!(rt.refresh_seeds.score_list, vec![100]);
    assert_eq!(rt.tokens.get_bonus_amount(), total_bonus - bonus_1);
    assert_eq!(RS::harvest_seed(&mut rt, Origin::signed(PATHFINDER), B), rs_err(refresh_seeds::Error::CandidateNotExist));

    assert_eq!(RS::harvest_seed(&mut rt, Origin::signed(CHALLENGER), C), rs_err(refresh_seeds::Error::SweeprtFail));

    rt.system.set_block_number(600);
    let challenger_balance = rt.currency.free_balance(&CHALLENGER);
    assert!(RS::harvest_seed(&mut rt, Origin::signed(CHALLENGER), C).is_ok());
    let total = total_bonus - bonus_1 + SEED_STAKING_AMOUNT;
    let fee = total / 50;
    assert_eq!(rt.currency.free_balance(&CHALLENGER), challenger_balance + fee);
    pathfinder_balance += total - fee;
    assert_eq!(rt.currency.free_balance(&PATHFINDER), pathfinder_balance);
    assert!(rt.seeds.is_seed(&C));
    assert_eq!(rt.tokens.get_bonus_amount(), 0);

    assert!(RS::harvest_seed(&mut rt, Origin::signed(PATHFINDER), D).is_ok());
    pathfinder_balance += SEED_STAKING_AMOUNT;
    assert_eq!(rt.currency.free_balance(&PATHFINDER), pathfinder_balance);
    assert!(!rt.seeds.is_seed(&D));
    assert!(!rt.refresh_seeds.seeds_confirmed());
    assert!(rt.reputation.is_step(&zerodao::primitives::TIRStep::Reputation));
    assert_eq!(RS::harvest_seed(&mut rt, Origin::signed(PATHFINDER), D), rs_err(refresh_seeds::Error::StepNotMatch));
}

#[test]
fn harvest_seed_on_a_tie_confirms_the_first_harvested() {
    let mut rt = new_runtime();
    candidates_with_bonus(&mut rt, &[(A, 100), (B, 100), (C, 100)], 0);
    rt.system.set_block_number(1 + CONFIRMATION_PERIOD + 1);
    assert!(RS::harvest_seed(&mut rt, Origin::signed(PATHFINDER), C).is_ok());
    assert!(RS::harvest_seed(&mut rt, Origin::signed(PATHFINDER), A).is_ok());
    assert!(RS::harvest_seed(&mut rt, Origin::signed(PATHFINDER), B).is_ok());
    assert!(rt.seeds.is_seed(&C));
    assert!(rt.seeds.is_seed(&A));
    assert!(!rt.seeds.is_seed(&B));
}

#[test]
fn harvest_seed_waits_for_the_challenges() {
    let mut rt = new_runtime();
    init_graph(&mut rt, 150);
    assert!(RS::challenge(&mut rt, Origin::signed(CHALLENGER), B, 50).is_ok());
    rt.system.set_block_number(1 + CONFIRMATION_PERIOD + 1);
    assert_eq!(
        RS::harvest_seed(&mut rt, Origin::signed(PATHFINDER), B),
        rs_err(refresh_seeds::Error::StillUnharvestedChallenges)
    );
}
