use zerodao::challenges;
use zerodao::currency::Currency;
use zerodao::perbill::Perbill;
use zerodao::primitives::{ChallengeStatus, Metadata, Pool, Progress};
use zerodao::refresh_reputation;
use zerodao::refresh_seeds;
use zerodao::reputation;
use zerodao::runtime::Runtime;
use zerodao::seeds;
use zerodao::system::{DispatchError, System};
use zerodao::tokens;
use zerodao::trust;

const ALICE: u64 = 1;
const BOB: u64 = 2;
const CHARLIE: u64 = 3;
const DAVE: u64 = 4;
const EVE: u64 = 5;
const FERDIE: u64 = 6;
const SWEEPER: u64 = 7;
const POOL: u64 = 10000;
const ENDOWMENT: u128 = 1000_000_000_000_000u128;

const APP_ID: [u8; 8] = *b"test    ";
const CHALLENGER: u64 = ALICE;
const PATHINFER: u64 = BOB;
const TARGET: u64 = CHARLIE;

const DEFAULT_METADATA: Metadata = Metadata {
    pool: Pool { staking: 0, earnings: 0 },
    joint_benefits: false,
    progress: Progress { total: 100, done: 0 },
    last_update: 1,
    remark: 0,
    score: 0,
    pathfinder: PATHINFER,
    status: ChallengeStatus::Examine,
    challenger: CHALLENGER,
};

fn new_runtime() -> Runtime {
    let mut currency = Currency::new();
    for who in [ALICE, BOB, FERDIE, SWEEPER] {
        currency.deposit(&who, ENDOWMENT).unwrap();
    }
    Runtime {
        system: System::new(1),
        currency,
        tokens: tokens::Pallet::new(tokens::Config { social_pool: POOL }),
        reputation: reputation::Pallet::genesis(&reputation::GenesisConfig { period: 10 }),
        seeds: seeds::Pallet::new(),
        trust: trust::Pallet::new(trust::Config { damping_factor: Perbill::from_percent(100), max_trust_count: 600 }),
        challenges: challenges::Pallet::new(challenges::Config { challenge_timeout: 10, challenge_staking_amount: 100 }),
        refresh_reputation: refresh_reputation::Pallet::new(refresh_reputation::Config {
            max_update_count: 4,
            update_staking_amount: 1000,
            confirmation_period: 120,
            ref_repu_timeout: 100,
        }),
        refresh_seeds: refresh_seeds::Pallet::new(refresh_seeds::Config {
            seed_staking_amount: 1_000_000_000,
            seed_challenge_amount: 100_000_000,
            seed_reserv_staking: 900_000_000,
            max_seed_count: 2,
            confirmation_period: 120,
        }),
    }
}

fn launch(rt: &mut Runtime, metadata: &Metadata) -> Result<(), DispatchError> {
    rt.challenges.launch(&mut rt.tokens, &mut rt.currency, &mut rt.system, &APP_ID, &TARGET, metadata)
}

fn init_challenge(rt: &mut Runtime, total: u32, done: u32, status: ChallengeStatus) {
    let init_metadata = Metadata { progress: Progress { total, done }, status, ..DEFAULT_METADATA };
    rt.challenges.set_metadata(&APP_ID, &TARGET, &init_metadata);
}

fn now(rt: &Runtime) -> u64 {
    rt.system.block_number()
}

struct NewChallengeData {
    earnings: u128,
    staking: u128,
    total: u32,
    score: u64,
    remark: u32,
    init: bool,
    set_now: u64,
}

fn new_challenge_data() -> NewChallengeData {
    NewChallengeData { earnings: 0, staking: 0, total: 100, score: 0, remark: 0, init: false, set_now: 1 }
}

fn check_new_challenge(value: NewChallengeData) {
    let mut rt = new_runtime();
    let staking_amount = rt.challenges.challenge_staking_amount();
    let mut init_staking: u128 = 0;
    let mut init_earnings: u128 = 0;
    if value.init {
        init_staking = 2000;
        init_earnings = 8000;
        let init_metadata = Metadata {
            pool: Pool { staking: init_staking, earnings: init_earnings },
            progress: Progress { total: value.total, done: 0 },
            last_update: 1,
            status: ChallengeStatus::Free,
            ..DEFAULT_METADATA
        };
        rt.challenges.set_metadata(&APP_ID, &TARGET, &init_metadata);
        rt.system.set_block_number(value.set_now);
    }
    assert!(launch(
        &mut rt,
        &Metadata {
            pool: Pool { staking: value.staking, earnings: value.earnings },
            progress: Progress { total: value.total, done: 0 },
            challenger: CHALLENGER,
            pathfinder: PATHINFER,
            score: value.score,
            remark: value.remark,
            ..Metadata::default()
        }
    )
    .is_ok());
    assert_eq!(
        rt.challenges.get_metadata(&APP_ID, &TARGET),
        Metadata {
            pool: Pool {
                staking: init_staking + value.staking + staking_amount,
                earnings: init_earnings + value.earnings,
            },
            progress: Progress { total: value.total, done: 0 },
            score: value.score,
            remark: value.remark,
            last_update: value.set_now,
            ..DEFAULT_METADATA
        }
    );
    assert_eq!(rt.tokens.total_staking(), staking_amount);
    assert_eq!(rt.tokens.free_balance(&rt.currency, &CHALLENGER), ENDOWMENT - staking_amount);
}

#[test]
fn new_challenge_cases() {
    check_new_challenge(NewChallengeData { earnings: 20000, staking: 1000, score: 100, remark: 21, ..new_challenge_data() });
    check_new_challenge(NewChallengeData { earnings: 0, staking: 1000000, score: 100, ..new_challenge_data() });
    check_new_challenge(NewChallengeData { total: 0, score: 100, ..new_challenge_data() });
    check_new_challenge(NewChallengeData { earnings: 20000, staking: 10000000000u128, total: 0, ..new_challenge_data() });
    check_new_challenge(NewChallengeData {
        earnings: 20000,
        staking: 1000,
        score: 100,
        init: true,
        set_now: 100,
        ..new_challenge_data()
    });
    check_new_challenge(NewChallengeData {
        earnings: 0,
        staking: 1000000,
        score: 100,
        init: true,
        set_now: 20,
        ..new_challenge_data()
    });
    check_new_challenge(NewChallengeData { total: 0, score: 100, init: true, set_now: 2, ..new_challenge_data() });
    check_new_challenge(NewChallengeData {
        earnings: 20000,
        staking: 10000000000u128,
        total: 0,
        init: true,
        set_now: 2,
        ..new_challenge_data()
    });
}

#[test]
fn new_challenge_staking_fail() {
    let mut rt = new_runtime();
    assert!(launch(
        &mut rt,
        &Metadata {
            pool: Pool { staking: 1000, earnings: 0 },
            progress: Progress { total: 100, done: 0 },
            challenger: DAVE,
            pathfinder: PATHINFER,
            score: 10,
            remark: 0,
            ..Metadata::default()
        }
    )
    .is_err());
    assert_eq!(rt.challenges.get_metadata(&APP_ID, &TARGET), Metadata::default());
}

fn check_no_allowed(total: u32, status: ChallengeStatus, block: u64) {
    let mut rt = new_runtime();
    let init_metadata =
        Metadata { progress: Progress { total, done: 0 }, last_update: 1, status, ..DEFAULT_METADATA };
    rt.challenges.set_metadata(&APP_ID, &TARGET, &init_metadata);
    rt.system.set_block_number(block);
    assert_eq!(
        launch(
            &mut rt,
            &Metadata {
                pool: Pool { staking: 10, earnings: 10 },
                progress: Progress { total: 20, done: 0 },
                challenger: CHALLENGER,
                pathfinder: PATHINFER,
                score: 10,
                remark: 0,
                ..Metadata::default()
            },
        ),
        Err(DispatchError::Challenges(challenges::Error::NoChallengeAllowed))
    );
    assert_eq!(rt.challenges.get_metadata(&APP_ID, &TARGET), init_metadata);
}

#[test]
fn new_challenge_no_allowed_cases() {
    check_no_allowed(0, ChallengeStatus::Evidence, 5);
    check_no_allowed(0, ChallengeStatus::Examine, 21345);
    check_no_allowed(0, ChallengeStatus::Reply, 51);
    check_no_allowed(0, ChallengeStatus::Arbitral, 533314);
}

#[test]
fn next_should_work() {
    let mut rt = new_runtime();
    init_challenge(&mut rt, 300, 20, ChallengeStatus::Free);
    rt.system.set_block_number(3);
    assert!(rt
        .challenges
        .next(
            &APP_ID,
            &CHALLENGER,
            &TARGET,
            &100,
            |score, remark, is_all_done| -> Result<(u64, u32), DispatchError> {
                assert_eq!(score, DEFAULT_METADATA.score);
                assert_eq!(remark, DEFAULT_METADATA.remark);
                assert_eq!(is_all_done, false);
                Ok((211, 322))
            },
            3,
        )
        .is_ok());
    let metadata = rt.challenges.get_metadata(&APP_ID, &TARGET);
    assert_eq!(metadata.progress.done, 100 + 20);
    assert_eq!(metadata.score, 211);
    assert_eq!(metadata.remark, 322);
}

#[test]
fn next_should_fail() {
    let mut rt = new_runtime();
    init_challenge(&mut rt, 100, 20, ChallengeStatus::Free);
    rt.system.set_block_number(3);
    let pass = |score: u64, remark: u32, _done: bool| -> Result<(u64, u32), DispatchError> { Ok((score, remark)) };
    assert_eq!(
        rt.challenges.next(&APP_ID, &EVE, &TARGET, &80, pass, 3),
        Err(DispatchError::Challenges(challenges::Error::NoPermission))
    );
    assert_eq!(
        rt.challenges.next(&APP_ID, &CHALLENGER, &TARGET, &300, pass, 3),
        Err(DispatchError::Challenges(challenges::Error::TooMany))
    );
    rt.system.set_block_number(200);
    assert_eq!(
        rt.challenges.next(&APP_ID, &CHALLENGER, &TARGET, &90, pass, 200),
        Err(DispatchError::Challenges(challenges::Error::ProgressErr))
    );
    let metadata = rt.challenges.get_metadata(&APP_ID, &TARGET);
    assert_eq!(metadata.progress.total, 100);
    assert_eq!(metadata.progress.done, 20);
}

#[test]
fn examine_should_work() {
    let mut rt = new_runtime();
    init_challenge(&mut rt, 100, 100, ChallengeStatus::Reply);
    let n = now(&rt);
    assert!(rt.challenges.examine(&APP_ID, &CHALLENGER, &TARGET, 22, n).is_ok());
    let metadata = rt.challenges.get_metadata(&APP_ID, &TARGET);
    assert_eq!(metadata.remark, 22);
    assert_eq!(metadata.status, ChallengeStatus::Examine);
    assert_eq!(metadata.last_update, 1);
}

#[test]
fn examine_should_fail() {
    let mut rt = new_runtime();
    let n = now(&rt);
    init_challenge(&mut rt, 100, 100, ChallengeStatus::Reply);
    assert_eq!(
        rt.challenges.examine(&APP_ID, &EVE, &TARGET, 22, n),
        Err(DispatchError::Challenges(challenges::Error::NoPermission))
    );
    let metadata = rt.challenges.get_metadata(&APP_ID, &TARGET);
    assert_eq!(metadata.status, ChallengeStatus::Reply);
    assert_eq!(metadata.progress.total, 100);
    assert_eq!(metadata.progress.done, 100);
    init_challenge(&mut rt, 100, 10, ChallengeStatus::Reply);
    assert_eq!(
        rt.challenges.examine(&APP_ID, &CHALLENGER, &TARGET, 22, n),
        Err(DispatchError::Challenges(challenges::Error::NoChallengeAllowed))
    );
    let metadata = rt.challenges.get_metadata(&APP_ID, &TARGET);
    assert_eq!(metadata.status, ChallengeStatus::Reply);
    assert_eq!(metadata.progress.total, 100);
    assert_eq!(metadata.progress.done, 10);
    init_challenge(&mut rt, 100, 100, ChallengeStatus::Free);
    assert_eq!(
        rt.challenges.examine(&APP_ID, &CHALLENGER, &TARGET, 22, n),
        Err(DispatchError::Challenges(challenges::Error::NoChallengeAllowed))
    );
    let metadata = rt.challenges.get_metadata(&APP_ID, &TARGET);
    assert_eq!(metadata.status, ChallengeStatus::Free);
    assert_eq!(metadata.progress.total, 100);
    assert_eq!(metadata.progress.done, 100);
}

#[test]
fn reply_should_work() {
    let mut rt = new_runtime();
    init_challenge(&mut rt, 100, 100, ChallengeStatus::Examine);
    let n = now(&rt);
    assert!(rt
        .challenges
        .reply(
            &APP_ID,
            &PATHINFER,
            &TARGET,
            100,
            12,
            |is_all_done, _, _| -> Result<u64, DispatchError> {
                assert_eq!(is_all_done, false);
                Ok(60)
            },
            n,
        )
        .is_ok());
    let metadata = rt.challenges.get_metadata(&APP_ID, &TARGET);
    assert_eq!(metadata.score, 60);
    assert_eq!(metadata.status, ChallengeStatus::Reply);
    assert_eq!(metadata.last_update, 1);
}

#[test]
fn reply_should_fail() {
    let mut rt = new_runtime();
    let n = now(&rt);
    let up = |is_all_done: bool, _: u32, _: u64| -> Result<u64, DispatchError> {
        assert_eq!(is_all_done, false);
        Ok(60)
    };
    init_challenge(&mut rt, 100, 100, ChallengeStatus::Examine);
    assert_eq!(
        rt.challenges.reply(&APP_ID, &EVE, &TARGET, 100, 12, up, n),
        Err(DispatchError::Challenges(challenges::Error::NoPermission))
    );
    init_challenge(&mut rt, 100, 100, ChallengeStatus::Free);
    assert_eq!(
        rt.challenges.reply(&APP_ID, &PATHINFER, &TARGET, 100, 12, up, n),
        Err(DispatchError::Challenges(challenges::Error::StatusErr))
    );
    init_challenge(&mut rt, 100, 100, ChallengeStatus::Examine);
    assert_eq!(
        rt.challenges.reply(&APP_ID, &PATHINFER, &TARGET, 100, 120, up, n),
        Err(DispatchError::Challenges(challenges::Error::ProgressErr))
    );
}

#[test]
fn evidence_should_work() {
    let mut rt = new_runtime();
    let n = now(&rt);
    init_challenge(&mut rt, 100, 100, ChallengeStatus::Reply);
    assert_eq!(
        rt.challenges.evidence(&APP_ID, &CHALLENGER, &TARGET, |_, _| -> Result<bool, DispatchError> { Ok(true) }, n),
        Ok(None)
    );
    let metadata = rt.challenges.get_metadata(&APP_ID, &TARGET);
    assert_eq!(metadata.status, ChallengeStatus::Arbitral);
    init_challenge(&mut rt, 100, 100, ChallengeStatus::Reply);
    assert_eq!(
        rt.challenges.evidence(&APP_ID, &CHALLENGER, &TARGET, |_, _| -> Result<bool, DispatchError> { Ok(false) }, n),
        Ok(Some(0))
    );
    let metadata = rt.challenges.get_metadata(&APP_ID, &TARGET);
    assert_eq!(metadata.status, ChallengeStatus::Free);
    assert_eq!(metadata.pathfinder, CHALLENGER);
    assert_eq!(metadata.joint_benefits, false);
}

#[test]
fn evidence_should_fail() {
    let mut rt = new_runtime();
    let n = now(&rt);
    let up = |_: u32, _: u64| -> Result<bool, DispatchError> { Ok(true) };
    assert_eq!(
        rt.challenges.evidence(&APP_ID, &CHALLENGER, &TARGET, up, n),
        Err(DispatchError::Challenges(challenges::Error::NonExistent))
    );
    init_challenge(&mut rt, 100, 10, ChallengeStatus::Reply);
    assert_eq!(
        rt.challenges.evidence(&APP_ID, &EVE, &TARGET, up, n),
        Err(DispatchError::Challenges(challenges::Error::NoPermission))
    );
    assert_eq!(
        rt.challenges.evidence(&APP_ID, &CHALLENGER, &TARGET, up, n),
        Err(DispatchError::Challenges(challenges::Error::ProgressErr))
    );
    init_challenge(&mut rt, 100, 100, ChallengeStatus::Examine);
    assert_eq!(
        rt.challenges.evidence(&APP_ID, &CHALLENGER, &TARGET, up, n),
        Err(DispatchError::Challenges(challenges::Error::StatusErr))
    );
}

fn arbitral(rt: &mut Runtime, who: u64, result: (bool, bool, u64)) -> Result<(), DispatchError> {
    let n = rt.system.block_number();
    rt.challenges.arbitral(
        &mut rt.tokens,
        &mut rt.currency,
        &APP_ID,
        &who,
        &TARGET,
        move |_, _| -> Result<(bool, bool, u64), DispatchError> { Ok(result) },
        n,
    )
}

#[test]
fn arbitral_should_work() {
    let mut rt = new_runtime();
    init_challenge(&mut rt, 100, 100, ChallengeStatus::Reply);
    assert!(arbitral(&mut rt, CHALLENGER, (true, false, 18)).is_ok());
    let metadata = rt.challenges.get_metadata(&APP_ID, &TARGET);
    assert_eq!(metadata.joint_benefits, true);
    assert_eq!(metadata.score, 18);

    init_challenge(&mut rt, 100, 100, ChallengeStatus::Reply);
    rt.system.set_block_number(9);
    assert!(arbitral(&mut rt, CHALLENGER, (true, false, 60)).is_ok());
    let metadata = rt.challenges.get_metadata(&APP_ID, &TARGET);
    assert_eq!(metadata.joint_benefits, true);
    assert_eq!(metadata.score, 60);
    assert_eq!(metadata.last_update, 9);

    rt.system.set_block_number(100);

    assert!(arbitral(&mut rt, FERDIE, (true, false, 60)).is_ok());

    let metadata = rt.challenges.get_metadata(&APP_ID, &TARGET);
    assert_eq!(metadata.joint_benefits, true);
    assert_eq!(metadata.score, 60);
    assert_eq!(metadata.last_update, 100);
    let staking_amount = rt.challenges.challenge_staking_amount();
    assert_eq!(rt.tokens.total_staking(), staking_amount);
    assert_eq!(rt.tokens.free_balance(&rt.currency, &FERDIE), ENDOWMENT - staking_amount);
}

#[test]
fn arbitral_should_fail() {
    let mut rt = new_runtime();
    init_challenge(&mut rt, 100, 100, ChallengeStatus::Examine);
    assert_eq!(
        arbitral(&mut rt, CHALLENGER, (true, false, 60)),
        Err(DispatchError::Challenges(challenges::Error::StatusErr))
    );
    init_challenge(&mut rt, 100, 10, ChallengeStatus::Reply);
    assert_eq!(
        arbitral(&mut rt, CHALLENGER, (true, false, 60)),
        Err(DispatchError::Challenges(challenges::Error::ProgressErr))
    );
    init_challenge(&mut rt, 100, 100, ChallengeStatus::Reply);
    rt.system.set_block_number(3);
    assert_eq!(
        arbitral(&mut rt, FERDIE, (true, false, 60)),
        Err(DispatchError::Challenges(challenges::Error::NoPermission))
    );
    rt.system.set_block_number(30);
    assert!(arbitral(&mut rt, EVE, (true, false, 60)).is_err());
}

fn check_settle(block: u64, staking: u128, joint_benefits: bool, restart: bool) {
    let mut rt = new_runtime();
    rt.system.set_block_number(block);
    let init_metadata = Metadata {
        progress: Progress { total: 100, done: 100 },
        pool: Pool { staking, earnings: 200 },
        ..DEFAULT_METADATA
    };
    rt.challenges.set_metadata(&APP_ID, &TARGET, &init_metadata);
    assert!(rt.tokens.staking(&mut rt.currency, &FERDIE, &10000000).is_ok());

    let free_balance = rt.tokens.free_balance(&rt.currency, &CHALLENGER);

    assert!(rt
        .challenges
        .settle(&mut rt.tokens, &mut rt.currency, &APP_ID, &TARGET, joint_benefits, restart, 100, block)
        .is_ok());

    let metadata = rt.challenges.get_metadata(&APP_ID, &TARGET);
    if restart {
        if joint_benefits {
            assert_eq!(rt.tokens.free_balance(&rt.currency, &CHALLENGER), free_balance + (staking / 2));
            assert_eq!(metadata.pool.staking, staking - (staking / 2));
            assert_eq!(metadata.pathfinder, PATHINFER);
        } else {
            assert_eq!(metadata.pathfinder, CHALLENGER);
        }
        assert_eq!(metadata.status, ChallengeStatus::Free);
    } else {
        assert_eq!(metadata.joint_benefits, joint_benefits);
        assert_eq!(metadata.score, 100);
    }
}

#[test]
fn settle_cases() {
    check_settle(3, 1000, true, true);
    check_settle(30, 999, true, false);
    check_settle(5, 1000, false, true);
    check_settle(9, 7, false, false);
}

#[test]
fn harvest_goes_to_the_winner_and_removes_the_challenge() {
    let mut rt = new_runtime();
    assert!(rt.tokens.staking(&mut rt.currency, &FERDIE, &10000).is_ok());
    let m = Metadata {
        progress: Progress { total: 100, done: 100 },
        pool: Pool { staking: 300, earnings: 200 },
        status: ChallengeStatus::Free,
        ..DEFAULT_METADATA
    };
    rt.challenges.set_metadata(&APP_ID, &TARGET, &m);
    rt.system.set_block_number(50);
    let before = rt.tokens.free_balance(&rt.currency, &CHALLENGER);
    let r = rt.challenges.harvest(&mut rt.tokens, &mut rt.currency, &CHALLENGER, &APP_ID, &TARGET, 50);
    assert!(r.is_ok());
    assert!(rt.tokens.free_balance(&rt.currency, &CHALLENGER) + rt.tokens.free_balance(&rt.currency, &PATHINFER) > before);
    assert_eq!(
        rt.challenges.harvest(&mut rt.tokens, &mut rt.currency, &CHALLENGER, &APP_ID, &TARGET, 50),
        Err(DispatchError::Challenges(challenges::Error::NonExistent))
    );
    assert!(rt.challenges.is_all_harvest(&APP_ID));
}

#[test]
fn harvest_is_too_soon_for_the_parties() {
    let mut rt = new_runtime();
    let m = Metadata { progress: Progress { total: 100, done: 100 }, status: ChallengeStatus::Free, ..DEFAULT_METADATA };
    rt.challenges.set_metadata(&APP_ID, &TARGET, &m);
    assert_eq!(
        rt.challenges.harvest(&mut rt.tokens, &mut rt.currency, &CHALLENGER, &APP_ID, &TARGET, 5),
        Err(DispatchError::Challenges(challenges::Error::TooSoon))
    );
    assert_eq!(
        rt.challenges.harvest(&mut rt.tokens, &mut rt.currency, &SWEEPER, &APP_ID, &TARGET, 5),
        Err(DispatchError::Challenges(challenges::Error::NotAllowedSweeper))
    );
    assert!(!rt.challenges.is_all_harvest(&APP_ID));
}

#[test]
fn harvest_pays_the_whole_pool() {
    let mut rt = new_runtime();
    assert!(rt.tokens.staking(&mut rt.currency, &FERDIE, &10_000).is_ok());
    let m = Metadata {
        progress: Progress { total: 100, done: 100 },
        pool: Pool { staking: 3_000, earnings: 2_000 },
        status: ChallengeStatus::Arbitral,
        joint_benefits: true,
        last_update: 1,
        ..DEFAULT_METADATA
    };
    rt.challenges.set_metadata(&APP_ID, &TARGET, &m);
    let p0 = rt.tokens.free_balance(&rt.currency, &PATHINFER);
    let c0 = rt.tokens.free_balance(&rt.currency, &CHALLENGER);
    assert!(rt.challenges.harvest(&mut rt.tokens, &mut rt.currency, &CHALLENGER, &APP_ID, &TARGET, 50).is_ok());
    assert_eq!(rt.tokens.free_balance(&rt.currency, &PATHINFER), p0 + 2_500);
    assert_eq!(rt.tokens.free_balance(&rt.currency, &CHALLENGER), c0 + 2_500);
    assert_eq!(rt.tokens.total_staking(), 10_000 - 5_000);
}

#[test]
fn launch_twice_is_refused() {
    let mut rt = new_runtime();
    let m = Metadata {
        progress: Progress { total: 3, done: 0 },
        challenger: CHALLENGER,
        pathfinder: PATHINFER,
        ..Metadata::default()
    };
    assert!(launch(&mut rt, &m).is_ok());
    assert_eq!(launch(&mut rt, &m), Err(DispatchError::Challenges(challenges::Error::NoChallengeAllowed)));
}
