use zerodao::challenges;
use zerodao::currency::Currency;
use zerodao::perbill::Perbill;
use zerodao::per_social_currency::pre_fee;
use zerodao::primitives::{with_fee, ChallengeStatus, TIRStep};
use zerodao::refresh_reputation::{self, Path, Payroll, Record};
use zerodao::refresh_seeds;
use zerodao::reputation;
use zerodao::runtime::Runtime;
use zerodao::seeds;
use zerodao::storage::AccountPair;
use zerodao::system::{DispatchError, Origin, RuntimeEvent, System};
use zerodao::tokens;
use zerodao::trust;

type RR = refresh_reputation::Pallet;

const ALICE: u64 = 1;
const BOB: u64 = 2;
const CHARLIE: u64 = 3;
const DAVE: u64 = 4;
const EVE: u64 = 5;
const FERDIE: u64 = 6;
const CHALLENGER: u64 = 7;
const PATHFINDER: u64 = 8;
const SWEEPRT: u64 = 9;
const SUB_CHALLENGER: u64 = 11;
const TARGET: u64 = 20;
const SEED1: u64 = 21;
const SEED2: u64 = 22;
const SEED3: u64 = 23;
const SEED4: u64 = 24;
const POOL: u64 = 10000;
const ENDOWMENT: u128 = 1000_000_000_000_000u128;
const UPDATE_STAKING_AMOUNT: u128 = 1000;
const CONFIRMATION_PERIOD: u64 = 120;
const CHALLENGE_TIMEOUT: u64 = 10;

fn new_runtime() -> Runtime {
    let mut currency = Currency::new();
    for who in [ALICE, BOB, CHALLENGER, PATHFINDER, SWEEPRT, SUB_CHALLENGER] {
        currency.deposit(&who, ENDOWMENT).unwrap();
    }
    Runtime {
        system: System::new(1),
        currency,
        tokens: tokens::Pallet::new(tokens::Config { social_pool: POOL }),
        reputation: reputation::Pallet::genesis(&reputation::GenesisConfig { period: 10 }),
        seeds: seeds::Pallet::new(),
        trust: trust::Pallet::new(trust::Config { damping_factor: Perbill::from_percent(100), max_trust_count: 600 }),
        challenges: challenges::Pallet::new(challenges::Config {
            challenge_timeout: CHALLENGE_TIMEOUT,
            challenge_staking_amount: 100,
        }),
        refresh_reputation: RR::new(refresh_reputation::Config {
            max_update_count: 4,
            update_staking_amount: UPDATE_STAKING_AMOUNT,
            confirmation_period: CONFIRMATION_PERIOD,
            ref_repu_timeout: 100,
        }),
        refresh_seeds: refresh_seeds::Pallet::new(refresh_seeds::Config {
            seed_staking_amount: 1_000_000_000,
            seed_challenge_amount: 100_000_000,
            seed_reserv_staking: 900_000_000,
            max_seed_count: 2,
            confirmation_period: 120,
        }),
    }
}

fn new_round(rt: &mut Runtime) {
    let now = rt.system.block_number();
    assert!(rt.reputation.new_round(now).is_ok());
}

fn rr_event(e: refresh_reputation::Event) -> RuntimeEvent {
    RuntimeEvent::RefreshReputation(e)
}

fn rr_err(e: refresh_reputation::Error) -> Result<(), DispatchError> {
    Err(DispatchError::RefreshReputation(e))
}

fn path(nodes: Vec<u64>, score: u32) -> Path {
    Path { nodes, score }
}

#[test]
fn start_should_work() {
    let mut rt = new_runtime();
    rt.reputation.set_step(&TIRStep::Reputation);
    rt.system.set_block_number(2000);
    assert!(RR::start(&mut rt, Origin::signed(ALICE)).is_ok());
    assert!(rt.system.has_event(&rr_event(refresh_reputation::Event::Started(ALICE))));
}

#[test]
fn start_waits_for_the_confirmation_period() {
    let mut rt = new_runtime();
    rt.reputation.set_step(&TIRStep::Reputation);
    rt.reputation.set_last_refresh_at(1000);
    rt.system.set_block_number(1000 + CONFIRMATION_PERIOD);
    assert_eq!(RR::start(&mut rt, Origin::signed(ALICE)), rr_err(refresh_reputation::Error::NotInTime));
    rt.system.set_block_number(1000 + CONFIRMATION_PERIOD + 1);
    assert!(RR::start(&mut rt, Origin::signed(ALICE)).is_ok());
}

const INIT_PAYROLLS: [Payroll; 6] = [
    Payroll { count: 11, total_fee: 1001, update_at: 1 },
    Payroll { count: 112, total_fee: 1021, update_at: 1 },
    Payroll { count: 100, total_fee: 10011233, update_at: 1 },
    Payroll { count: 2, total_fee: 1, update_at: 1 },
    Payroll { count: 1, total_fee: 0, update_at: 1 },
    Payroll { count: 0, total_fee: 13, update_at: 1 },
];

struct InitAccount {
    account: u64,
    soc_amount: u128,
    score: u32,
}

const INIT_ACCOUNT: [InitAccount; 6] = [
    InitAccount { account: ALICE, soc_amount: 100111, score: 199 },
    InitAccount { account: 99, soc_amount: 101, score: 0 },
    InitAccount { account: BOB, soc_amount: 2000, score: 1 },
    InitAccount { account: DAVE, soc_amount: 212333, score: 322 },
    InitAccount { account: EVE, soc_amount: 122199, score: 1998 },
    InitAccount { account: FERDIE, soc_amount: 10, score: 0 },
];

#[test]
fn start_with_payrolls() {
    let mut rt = new_runtime();
    assert_eq!(RR::start(&mut rt, Origin::signed(SWEEPRT)), rr_err(refresh_reputation::Error::StatusErr));

    rt.reputation.set_step(&TIRStep::Reputation);

    assert_eq!(RR::start(&mut rt, Origin::signed(SWEEPRT)), rr_err(refresh_reputation::Error::NotInTime));

    rt.system.set_block_number(2000);

    // init staking pool
    rt.currency.deposit(&FERDIE, 1_000_000_000_000u128).unwrap();
    assert!(rt.tokens.staking(&mut rt.currency, &FERDIE, &1_000_000_000_000u128).is_ok());

    for (i, payroll) in INIT_PAYROLLS.iter().enumerate() {
        rt.refresh_reputation.payrolls.insert(INIT_ACCOUNT[i].account, *payroll);
    }

    let who_balance = rt.tokens.free_balance(&rt.currency, &SWEEPRT);
    let old_balances =
        INIT_ACCOUNT.iter().map(|a| rt.tokens.free_balance(&rt.currency, &a.account)).collect::<Vec<u128>>();

    assert!(RR::start(&mut rt, Origin::signed(SWEEPRT)).is_ok());

    let mut total_fee = 0;
    for (i, p) in INIT_PAYROLLS.iter().enumerate() {
        let total_amount = UPDATE_STAKING_AMOUNT * (p.count as u128) + p.total_fee;
        let (sweeper_fee, awards) = with_fee(total_amount);
        assert_eq!(rt.tokens.free_balance(&rt.currency, &INIT_ACCOUNT[i].account), awards + old_balances[i]);
        total_fee += sweeper_fee;
    }
    assert_eq!(rt.tokens.free_balance(&rt.currency, &SWEEPRT), who_balance + total_fee);
    assert_eq!(rt.refresh_reputation.get_payroll(&ALICE), Payroll { count: 0, total_fee: 0, update_at: 0 });
    assert_eq!(RR::start(&mut rt, Origin::signed(SWEEPRT)), rr_err(refresh_reputation::Error::AlreadyStarted));
}

#[test]
fn refresh_should_work() {
    let mut rt = new_runtime();
    let user_scores = INIT_ACCOUNT[..4].iter().map(|a| (a.account, a.score)).collect::<Vec<(u64, u32)>>();
    let user_scores_too_long = vec![(BOB, 0), (CHARLIE, 0), (DAVE, 0), (EVE, 0), (FERDIE, 0)];
    for a in INIT_ACCOUNT.iter() {
        assert!(tokens::Pallet::transfer_social(&mut rt, Origin::signed(SWEEPRT), a.account, a.soc_amount).is_ok());
    }

    assert_eq!(
        RR::refresh(&mut rt, Origin::signed(PATHFINDER), user_scores.clone()),
        rr_err(refresh_reputation::Error::StatusErr)
    );

    new_round(&mut rt);
    rt.reputation.set_step(&TIRStep::Reputation);
    rt.system.set_block_number(2000);
    assert_eq!(
        RR::refresh(&mut rt, Origin::signed(PATHFINDER), user_scores.clone()),
        rr_err(refresh_reputation::Error::NotYetStarted)
    );
    assert!(RR::start(&mut rt, Origin::signed(PATHFINDER)).is_ok());
    assert_eq!(
        RR::refresh(&mut rt, Origin::signed(PATHFINDER), user_scores_too_long),
        rr_err(refresh_reputation::Error::QuantityLimitReached)
    );
    assert!(RR::refresh(&mut rt, Origin::signed(CHARLIE), user_scores.clone()).is_err());
    assert!(RR::refresh(&mut rt, Origin::signed(PATHFINDER), user_scores.clone()).is_ok());

    for a in INIT_ACCOUNT[..4].iter() {
        assert_eq!(rt.refresh_reputation.update_record(&PATHFINDER, &a.account).fee, pre_fee().mul_floor(a.soc_amount));
    }

    let total_fee: u128 = INIT_ACCOUNT[..4].iter().map(|f| pre_fee().mul_floor(f.soc_amount)).sum();

    assert_eq!(rt.refresh_reputation.get_payroll(&PATHFINDER).count, user_scores.len() as u32);
    assert_eq!(rt.refresh_reputation.get_payroll(&PATHFINDER).total_fee, total_fee);

    assert!(rt.system.has_event(&rr_event(refresh_reputation::Event::ReputationRefreshed(
        PATHFINDER,
        user_scores.len() as u32,
        total_fee
    ))));
}

#[test]
fn refresh_twice_in_a_round_is_refused() {
    let mut rt = new_runtime();
    assert!(tokens::Pallet::transfer_social(&mut rt, Origin::signed(SWEEPRT), ALICE, 500).is_ok());
    new_round(&mut rt);
    rt.reputation.set_step(&TIRStep::Reputation);
    rt.system.set_block_number(2000);
    assert!(RR::start(&mut rt, Origin::signed(PATHFINDER)).is_ok());
    assert!(RR::refresh(&mut rt, Origin::signed(PATHFINDER), vec![(ALICE, 3)]).is_ok());
    let balance = rt.tokens.free_balance(&rt.currency, &PATHFINDER);
    assert_eq!(
        RR::refresh(&mut rt, Origin::signed(PATHFINDER), vec![(ALICE, 4)]),
        Err(DispatchError::Reputation(reputation::Error::ReputationAlreadyUpdated))
    );
    assert_eq!(rt.tokens.free_balance(&rt.currency, &PATHFINDER), balance);
    assert_eq!(rt.reputation.get_reputation_new(&ALICE), Some(3));
}

#[test]
fn refresh_after_the_time_out_is_refused() {
    let mut rt = new_runtime();
    new_round(&mut rt);
    rt.reputation.set_step(&TIRStep::Reputation);
    rt.system.set_block_number(2000);
    assert!(RR::start(&mut rt, Origin::signed(PATHFINDER)).is_ok());
    rt.system.set_block_number(2101);
    assert_eq!(
        RR::refresh(&mut rt, Origin::signed(PATHFINDER), vec![(ALICE, 3)]),
        rr_err(refresh_reputation::Error::RefreshTiomeOut)
    );
}

fn check_next_step(block: u64, still_updating: bool) {
    let mut rt = new_runtime();
    rt.reputation.set_step(&TIRStep::Reputation);
    assert!(trust::Pallet::trust(&mut rt, Origin::signed(ALICE), BOB).is_ok());
    rt.refresh_reputation.started_at = Some(1);
    rt.reputation.set_last_refresh_at(rt.system.block_number());

    rt.system.set_block_number(block);

    RR::next_step(&mut rt);

    assert_eq!(!rt.trust.is_trust_old(&ALICE, &BOB), still_updating);
    assert_eq!(!rt.reputation.is_step(&TIRStep::Free), still_updating);
    assert_eq!(rt.refresh_reputation.started_at().is_some(), still_updating);
}

#[test]
fn next_step_cases() {
    check_next_step(10, true);
    check_next_step(5000, false);
    check_next_step(CONFIRMATION_PERIOD + 2, false);
    check_next_step(20, true);
    check_next_step(62, true);
}

fn check_harvest_ref_all(count: u32, total_fee: u128) {
    let mut rt = new_runtime();
    rt.refresh_reputation.payrolls.insert(PATHFINDER, Payroll { count, total_fee, update_at: 1 });
    let total_amount = UPDATE_STAKING_AMOUNT * (count as u128) + total_fee;
    assert!(rt.tokens.staking(&mut rt.currency, &ALICE, &1_000_000_000_000u128).is_ok());
    for a in INIT_ACCOUNT.iter() {
        rt.refresh_reputation.records.insert(AccountPair { first: PATHFINDER, second: a.account }, Record {
            update_at: 11,
            fee: 111,
        });
    }
    rt.system.set_block_number(500);
    let old_balances = rt.tokens.free_balance(&rt.currency, &PATHFINDER);
    assert!(RR::harvest_ref_all(&mut rt, Origin::signed(PATHFINDER)).is_ok());
    let new_balances = rt.tokens.free_balance(&rt.currency, &PATHFINDER);
    assert_eq!(new_balances - old_balances, total_amount);
    for a in INIT_ACCOUNT.iter() {
        assert!(!rt.refresh_reputation.records.contains_key(&AccountPair { first: PATHFINDER, second: a.account }));
    }
    assert!(rt.system.has_event(&rr_event(refresh_reputation::Event::RefreshedHarvested(PATHFINDER, total_amount))));
}

#[test]
fn harvest_ref_all_cases() {
    check_harvest_ref_all(2, 1000);
    check_harvest_ref_all(0, 11);
    check_harvest_ref_all(0, 0);
    check_harvest_ref_all(12, 0);
    check_harvest_ref_all(212, 1000);
}

#[test]
fn harvest_ref_all_before_confirmation_is_refused() {
    let mut rt = new_runtime();
    rt.refresh_reputation.payrolls.insert(PATHFINDER, Payroll { count: 1, total_fee: 5, update_at: 10 });
    rt.system.set_block_number(100);
    assert_eq!(
        RR::harvest_ref_all(&mut rt, Origin::signed(PATHFINDER)),
        rr_err(refresh_reputation::Error::ExcessiveBumberOfSeeds)
    );
    assert_eq!(rt.refresh_reputation.get_payroll(&PATHFINDER).count, 1);
}

#[test]
fn harvest_ref_all_sweeper_takes_a_fee() {
    let mut rt = new_runtime();
    assert!(rt.tokens.staking(&mut rt.currency, &ALICE, &1_000_000_000_000u128).is_ok());
    rt.refresh_reputation.payrolls.insert(PATHFINDER, Payroll { count: 3, total_fee: 500, update_at: 1 });
    rt.system.set_block_number(200);
    assert_eq!(
        RR::harvest_ref_all_sweeper(&mut rt, Origin::signed(SWEEPRT), PATHFINDER),
        rr_err(refresh_reputation::Error::FailedSweeper)
    );
    rt.system.set_block_number(1_000_000);
    let p_before = rt.tokens.free_balance(&rt.currency, &PATHFINDER);
    let s_before = rt.tokens.free_balance(&rt.currency, &SWEEPRT);
    assert!(RR::harvest_ref_all_sweeper(&mut rt, Origin::signed(SWEEPRT), PATHFINDER).is_ok());
    let (fee, rest) = with_fee(3 * UPDATE_STAKING_AMOUNT + 500);
    assert_eq!(rt.tokens.free_balance(&rt.currency, &SWEEPRT), s_before + fee);
    assert_eq!(rt.tokens.free_balance(&rt.currency, &PATHFINDER), p_before + rest);
    assert!(rt.system.has_event(&rr_event(refresh_reputation::Event::RefreshedHarvestedBySweeper(
        PATHFINDER,
        SWEEPRT,
        rest,
        fee
    ))));
}

fn init_sys(rt: &mut Runtime, score: u32) {
    let init_seeds = vec![SEED1, SEED2, SEED3, SEED4];
    for seed in init_seeds {
        rt.seeds.add_seed(&mut rt.system, &seed);
    }
    let init_paths = vec![
        vec![SEED1, ALICE, TARGET],
        vec![SEED2, ALICE, BOB, TARGET],
        vec![SEED3, TARGET],
        vec![SEED3, ALICE, TARGET],
        vec![SEED3, ALICE, BOB, TARGET],
        vec![SEED4, TARGET],
    ];
    for p in init_paths {
        for nodes in p.windows(2) {
            if !rt.trust.is_trust(&nodes[0], &nodes[1]) {
                assert!(trust::Pallet::trust(rt, Origin::signed(nodes[0]), nodes[1]).is_ok());
            }
        }
    }
    assert!(tokens::Pallet::transfer_social(rt, Origin::signed(ALICE), TARGET, 1000).is_ok());
    new_round(rt);

    rt.reputation.set_step(&TIRStep::Reputation);
    rt.refresh_reputation.started_at = Some(1);

    assert!(RR::refresh(rt, Origin::signed(PATHFINDER), vec![(TARGET, score)]).is_ok());
}

#[test]
fn challenge_should_work() {
    let mut rt = new_runtime();
    init_sys(&mut rt, 100);
    assert!(RR::challenge(&mut rt, Origin::signed(CHALLENGER), TARGET, PATHFINDER, 3, 20).is_ok());
    let payroll = rt.refresh_reputation.get_payroll(&PATHFINDER);
    assert_eq!(payroll.total_fee, 0);
    assert_eq!(payroll.count, 0);
    assert_eq!(payroll.update_at, 1);
    assert!(rt.system.has_event(&rr_event(refresh_reputation::Event::Challenge(CHALLENGER, TARGET))));
    let app = refresh_reputation::app_id();
    let m = rt.challenges.get_metadata(&app, &TARGET);
    assert_eq!(m.status, ChallengeStatus::Arbitral);
    assert_eq!(m.remark, 100);
    assert_eq!(m.progress.total, 3);
}

#[test]
fn challenge_should_fail() {
    let mut rt = new_runtime();
    init_sys(&mut rt, 100);
    assert_eq!(
        RR::challenge(&mut rt, Origin::signed(CHALLENGER), TARGET, PATHFINDER, 3, 100),
        rr_err(refresh_reputation::Error::SameReputation)
    );
    assert_eq!(
        RR::challenge(&mut rt, Origin::signed(CHALLENGER), TARGET, PATHFINDER, 10, 55),
        rr_err(refresh_reputation::Error::ExcessiveBumberOfSeeds)
    );
    assert_eq!(
        RR::challenge(&mut rt, Origin::signed(CHALLENGER), TARGET, PATHFINDER, u32::MAX, 55),
        rr_err(refresh_reputation::Error::ExcessiveBumberOfSeeds)
    );
    rt.system.set_block_number(CONFIRMATION_PERIOD + 100);
    assert_eq!(
        RR::challenge(&mut rt, Origin::signed(CHALLENGER), TARGET, PATHFINDER, 3, 55),
        rr_err(refresh_reputation::Error::ChallengeTimeout)
    );
}

#[test]
fn challenge_update_should_work() {
    let mut rt = new_runtime();
    init_sys(&mut rt, 100);
    assert!(RR::challenge(&mut rt, Origin::signed(CHALLENGER), TARGET, PATHFINDER, 3, 20).is_ok());
    let (score1, score2, score3) = (18u32, 12u32, 99u32);
    let seeds = vec![SEED1, SEED2];
    let paths = vec![path(vec![ALICE], score1), path(vec![ALICE, BOB], score2)];
    assert!(RR::challenge_update(&mut rt, Origin::signed(CHALLENGER), TARGET, seeds.clone(), paths.clone()).is_ok());
    assert!(rt.system.has_event(&rr_event(refresh_reputation::Event::PathUpdated(CHALLENGER, TARGET))));
    for seed in seeds.iter() {
        assert!(rt.refresh_reputation.paths.contains_key(&AccountPair { first: *seed, second: TARGET }));
    }
    assert!(RR::challenge_update(
        &mut rt,
        Origin::signed(CHALLENGER),
        TARGET,
        vec![SEED3],
        vec![path(vec![], score3)]
    )
    .is_ok());
    assert_eq!(rt.reputation.get_reputation_new(&TARGET), Some(score1 + score2 + score3));
}

#[test]
fn challenge_update_should_fail() {
    let mut rt = new_runtime();
    init_sys(&mut rt, 100);
    assert!(RR::challenge(&mut rt, Origin::signed(CHALLENGER), TARGET, PATHFINDER, 3, 20).is_ok());

    assert_eq!(
        RR::challenge_update(&mut rt, Origin::signed(CHALLENGER), TARGET, vec![SEED1, SEED3], vec![path(vec![ALICE], 12)]),
        rr_err(refresh_reputation::Error::NotMatch)
    );

    assert!(RR::challenge_update(
        &mut rt,
        Origin::signed(CHALLENGER),
        TARGET,
        vec![SEED3],
        vec![path(vec![ALICE, TARGET], 11)]
    )
    .is_ok());

    assert_eq!(
        RR::challenge_update(&mut rt, Origin::signed(CHALLENGER), TARGET, vec![SEED3], vec![path(
            vec![ALICE, TARGET],
            12
        )]),
        rr_err(refresh_reputation::Error::PathAlreadyExist)
    );

    assert_eq!(
        RR::challenge_update(&mut rt, Origin::signed(CHALLENGER), TARGET, vec![SEED2], vec![path(
            vec![ALICE, BOB, TARGET, TARGET, TARGET, BOB, TARGET],
            12
        )]),
        rr_err(refresh_reputation::Error::WrongPath)
    );

    assert_eq!(
        RR::challenge_update(&mut rt, Origin::signed(CHALLENGER), TARGET, vec![SEED2], vec![path(
            vec![ALICE, BOB, TARGET],
            u32::MAX
        )]),
        rr_err(refresh_reputation::Error::Overflow)
    );
}

#[test]
fn tests_arbitral_should_work() {
    let mut rt = new_runtime();
    init_sys(&mut rt, 100);
    assert!(RR::challenge(&mut rt, Origin::signed(CHALLENGER), TARGET, PATHFINDER, 3, 20).is_ok());
    let paths = vec![path(vec![], 11), path(vec![ALICE, BOB], 21), path(vec![ALICE, BOB], 29)];
    assert!(RR::challenge_update(&mut rt, Origin::signed(CHALLENGER), TARGET, vec![SEED1, SEED2, SEED3], paths.clone())
        .is_ok());

    assert_eq!(rt.reputation.get_reputation(&TARGET), Some(0));
    assert_eq!(rt.reputation.get_reputation(&ALICE), Some(0));

    assert!(RR::arbitral(
        &mut rt,
        Origin::signed(CHALLENGER),
        TARGET,
        vec![SEED3, SEED2, SEED1],
        vec![path(vec![ALICE, BOB], 1), path(vec![ALICE], 5), path(vec![ALICE, BOB], 1)]
    )
    .is_ok());

    assert!(RR::arbitral(&mut rt, Origin::signed(CHALLENGER), TARGET, vec![SEED3], vec![path(vec![ALICE], 5)]).is_ok());

    rt.system.set_block_number(CHALLENGE_TIMEOUT + 10);

    assert!(RR::arbitral(&mut rt, Origin::signed(SUB_CHALLENGER), TARGET, vec![SEED3], vec![path(vec![], 28)]).is_ok());
    assert_eq!(rt.trust.is_trust(&SEED4, &TARGET), true);
    assert!(RR::arbitral(&mut rt, Origin::signed(SUB_CHALLENGER), TARGET, vec![SEED4], vec![path(vec![], 28)]).is_ok());
    assert_eq!(rt.reputation.get_reputation_new(&TARGET), Some(62));
}

#[test]
fn tests_arbitral_should_fail() {
    let mut rt = new_runtime();
    init_sys(&mut rt, 100);
    let paths = vec![path(vec![], 11), path(vec![ALICE, BOB], 21), path(vec![ALICE], 5)];
    assert!(RR::challenge(&mut rt, Origin::signed(CHALLENGER), TARGET, PATHFINDER, 3, 20).is_ok());
    assert!(RR::challenge_update(&mut rt, Origin::signed(CHALLENGER), TARGET, vec![SEED1, SEED2, SEED3], paths.clone())
        .is_ok());

    assert_eq!(
        RR::arbitral(&mut rt, Origin::signed(CHALLENGER), TARGET, vec![SEED3], vec![
            path(vec![ALICE], 5),
            path(vec![ALICE], 5)
        ]),
        rr_err(refresh_reputation::Error::NotMatch)
    );

    assert_eq!(
        RR::arbitral(&mut rt, Origin::signed(CHALLENGER), TARGET, vec![SEED3], vec![path(vec![BOB], 5)]),
        rr_err(refresh_reputation::Error::DistErr)
    );

    assert_eq!(
        RR::arbitral(&mut rt, Origin::signed(CHALLENGER), TARGET, vec![SEED3], vec![path(vec![], 25)]),
        rr_err(refresh_reputation::Error::DistErr)
    );

    assert_eq!(
        RR::arbitral(&mut rt, Origin::signed(CHALLENGER), TARGET, vec![SEED3], vec![path(vec![ALICE, BOB], 1)]),
        rr_err(refresh_reputation::Error::DistTooLong)
    );
}

#[test]
fn harvest_challenge_needs_a_challenge() {
    let mut rt = new_runtime();
    assert_eq!(
        RR::harvest_challenge(&mut rt, Origin::signed(ALICE), TARGET),
        Err(DispatchError::Challenges(challenges::Error::NonExistent))
    );
    assert_eq!(RR::harvest_challenge(&mut rt, Origin::root(), TARGET), Err(DispatchError::BadOrigin));
}

#[test]
fn payroll_total_amount() {
    let p = Payroll { count: 3, total_fee: 7, update_at: 0 };
    assert_eq!(p.total_amount(1000), 3007);
    let big = Payroll { count: u32::MAX, total_fee: u128::MAX, update_at: 0 };
    assert_eq!(big.total_amount(u128::MAX), u128::MAX);
}

#[test]
fn path_lengths() {
    assert!(path(vec![1, 2, 3], 1).check_nodes_leng());
    assert!(!path(vec![1, 2, 3, 4], 1).check_nodes_leng());
    assert!(path(vec![], 1).exclude_zero());
    assert!(!path(vec![], 0).exclude_zero());
}

#[test]
fn get_dist_of_a_trusted_path() {
    let mut rt = new_runtime();
    init_sys(&mut rt, 100);
    assert_eq!(
        RR::get_dist(&rt.trust, &rt.seeds, &rt.reputation, &path(vec![ALICE], 5), &SEED1, &TARGET),
        Some(8)
    );
    assert_eq!(RR::get_dist(&rt.trust, &rt.seeds, &rt.reputation, &path(vec![ALICE], 6), &SEED1, &TARGET), None);
    assert_eq!(RR::get_dist(&rt.trust, &rt.seeds, &rt.reputation, &path(vec![], 28), &SEED1, &TARGET), None);
}
