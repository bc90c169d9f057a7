use zerodao::challenges;
use zerodao::currency::Currency;
use zerodao::perbill::Perbill;
use zerodao::per_social_currency::{pre_burn, pre_fee, pre_reserved, pre_share, MIN_TRUST_COUNT};
use zerodao::refresh_reputation;
use zerodao::refresh_seeds;
use zerodao::reputation;
use zerodao::runtime::Runtime;
use zerodao::seeds;
use zerodao::system::{DispatchError, Origin, RuntimeEvent, System};
use zerodao::tokens;
use zerodao::trust;

const ALICE: u64 = 1;
const BOB: u64 = 2;
const CHARLIE: u64 = 3;
const FERDIE: u64 = 6;
const SWEEPER: u64 = 7;
const POOL: u64 = 10000;
const ENDOWMENT: u128 = 1000_000_000_000_000u128;

fn new_runtime() -> Runtime {
    let mut currency = Currency::new();
    for who in [ALICE, BOB, FERDIE, SWEEPER] {
        currency.deposit(&who, ENDOWMENT).unwrap();
    }
    Runtime {
        system: System::new(1),
        currency,
        tokens: tokens::Pallet::new(tokens::Config { social_pool: POOL }),
        reputation: reputation::Pallet::genesis(&reputation::GenesisConfig { period: 10 }),
        seeds: seeds::Pallet::new(),
        trust: trust::Pallet::new(trust::Config { damping_factor: Perbill::from_percent(100), max_trust_count: 600 }),
        challenges: challenges::Pallet::new(challenges::Config { challenge_timeout: 10, challenge_staking_amount: 100 }),
        refresh_reputation: refresh_reputation::Pallet::new(refresh_reputation::Config {
            max_update_count: 4,
            update_staking_amount: 1000,
            confirmation_period: 120,
            ref_repu_timeout: 100,
        }),
        refresh_seeds: refresh_seeds::Pallet::new(refresh_seeds::Config {
            seed_staking_amount: 1_000_000_000,
            seed_challenge_amount: 100_000_000,
            seed_reserv_staking: 900_000_000,
            max_seed_count: 2,
            confirmation_period: 120,
        }),
    }
}

fn set_account(rt: &mut Runtime, who: u64, pending: u128, social: u128) {
    rt.tokens.set_pending_balance(&who, pending);
    rt.tokens.set_social_balance(&who, social);
}

#[test]
fn staking_test() {
    let mut rt = new_runtime();
    assert!(rt.tokens.staking(&mut rt.currency, &ALICE, &100).is_ok());
    assert_eq!(rt.tokens.total_staking(), 100);

    assert!(tokens::Pallet::transfer_social(&mut rt, Origin::signed(ALICE), CHARLIE, 600).is_ok());

    let old_balance = rt.tokens.free_balance(&rt.currency, &CHARLIE);

    set_account(&mut rt, CHARLIE, 599, 1);

    assert!(rt.tokens.staking(&mut rt.currency, &CHARLIE, &600).is_err());

    assert!(rt.currency.transfer(&ALICE, &CHARLIE, 1).is_ok());

    assert!(rt.tokens.staking(&mut rt.currency, &CHARLIE, &600).is_ok());

    assert_eq!(rt.tokens.total_staking(), 100 + 600);
    assert_eq!(rt.tokens.free_balance(&rt.currency, &CHARLIE), old_balance);
    assert_eq!(rt.tokens.pending_balance(&CHARLIE), 0);
    assert_eq!(rt.tokens.social_balance(&CHARLIE), 1);
}

#[test]
fn release_test() {
    let mut rt = new_runtime();
    assert!(rt.tokens.staking(&mut rt.currency, &ALICE, &100).is_ok());

    assert_eq!(
        rt.tokens.release(&mut rt.currency, &BOB, &101),
        Err(DispatchError::Tokens(tokens::Error::StakingAmountTooLow))
    );
    assert_eq!(
        rt.tokens.release(&mut rt.currency, &BOB, &u128::MAX),
        Err(DispatchError::Tokens(tokens::Error::StakingAmountTooLow))
    );

    let old_balance = rt.tokens.free_balance(&rt.currency, &BOB);
    assert!(rt.tokens.release(&mut rt.currency, &BOB, &100).is_ok());

    assert_eq!(rt.tokens.free_balance(&rt.currency, &BOB), old_balance + 100);
    assert_eq!(rt.tokens.total_staking(), 100 - 100);
}

#[test]
fn claim_test() {
    let mut rt = new_runtime();
    assert!(rt.tokens.staking(&mut rt.currency, &ALICE, &100).is_ok());

    assert!(tokens::Pallet::claim(&mut rt, Origin::signed(CHARLIE)).is_ok());

    rt.tokens.set_pending_balance(&CHARLIE, 91);

    let old_balance = rt.tokens.free_balance(&rt.currency, &CHARLIE);
    assert!(tokens::Pallet::claim(&mut rt, Origin::signed(CHARLIE)).is_ok());

    assert_eq!(rt.tokens.free_balance(&rt.currency, &CHARLIE), old_balance + 91);
    assert_eq!(rt.tokens.pending_balance(&CHARLIE), 0);

    assert!(tokens::Pallet::claim(&mut rt, Origin::signed(CHARLIE)).is_ok());

    assert_eq!(rt.tokens.free_balance(&rt.currency, &CHARLIE), old_balance + 91);
    assert_eq!(rt.tokens.pending_balance(&CHARLIE), 0);

    rt.tokens.set_pending_balance(&CHARLIE, 91);

    assert!(tokens::Pallet::claim(&mut rt, Origin::signed(CHARLIE)).is_err());
}

fn check_transfer_social(amount: u128, to: u64) {
    let mut rt = new_runtime();
    let from_old_free_balance = rt.tokens.free_balance(&rt.currency, &ALICE);
    let to_old_free_balance = rt.tokens.free_balance(&rt.currency, &to);
    assert!(tokens::Pallet::transfer_social(&mut rt, Origin::signed(ALICE), to, amount).is_ok());

    assert_eq!(rt.tokens.free_balance(&rt.currency, &ALICE), from_old_free_balance - amount);
    assert_eq!(rt.tokens.actual_balance(&rt.currency, &ALICE), from_old_free_balance - amount);
    assert_eq!(rt.tokens.free_balance(&rt.currency, &to), to_old_free_balance);
    assert_eq!(rt.tokens.actual_balance(&rt.currency, &to), to_old_free_balance + amount);
    assert_eq!(rt.tokens.social_balance(&to), amount);
    assert!(rt.system.has_event(&RuntimeEvent::Tokens(tokens::Event::TransferSocial(ALICE, to, amount))));
}

#[test]
fn transfer_social_cases() {
    check_transfer_social(10, BOB);
    check_transfer_social(0, BOB);
    check_transfer_social(9, BOB);
    check_transfer_social(10293711u128, BOB);
    check_transfer_social(100, CHARLIE);
    check_transfer_social(1, CHARLIE);
}

#[test]
fn transfer_social_needs_a_signed_origin() {
    let mut rt = new_runtime();
    assert_eq!(
        tokens::Pallet::transfer_social(&mut rt, Origin::root(), BOB, 10),
        Err(DispatchError::BadOrigin)
    );
    assert_eq!(rt.tokens.social_balance(&BOB), 0);
}

#[test]
fn transfer_social_uses_pending_first() {
    let mut rt = new_runtime();
    assert!(rt.tokens.staking(&mut rt.currency, &ALICE, &1000).is_ok());
    rt.tokens.set_pending_balance(&CHARLIE, 30);
    assert!(rt.currency.transfer(&ALICE, &CHARLIE, 50).is_ok());
    assert!(tokens::Pallet::transfer_social(&mut rt, Origin::signed(CHARLIE), BOB, 70).is_ok());
    assert_eq!(rt.tokens.pending_balance(&CHARLIE), 0);
    assert_eq!(rt.tokens.free_balance(&rt.currency, &CHARLIE), 10);
    assert_eq!(rt.tokens.social_balance(&BOB), 70);
}

fn check_share(total_social_balance: u128, len: u64) {
    let mut rt = new_runtime();
    assert!(tokens::Pallet::transfer_social(&mut rt, Origin::signed(ALICE), CHARLIE, total_social_balance).is_ok());

    let targets = (100u64..(len + 100)).collect::<Vec<u64>>();

    let total_share_amount = pre_share().mul_floor(total_social_balance);
    let reserved_amount = pre_reserved().mul_floor(total_social_balance);
    let burn_amount = pre_burn().mul_floor(total_social_balance);
    let fee_amount = pre_fee().mul_floor(total_social_balance);

    let pre_reward = total_social_balance - total_share_amount - reserved_amount - burn_amount - fee_amount;

    let old_total_issuance = rt.currency.total_issuance();

    assert_eq!(rt.tokens.share(&mut rt.currency, &CHARLIE, &targets), fee_amount);

    let count = targets.len() as u128;

    let mut remaining_share: u128 = total_share_amount;
    if !(count == 0 || total_share_amount < count) {
        let share_amount = total_share_amount / count.max(MIN_TRUST_COUNT as u128);
        for target in targets {
            assert_eq!(rt.tokens.social_balance(&target), share_amount);
        }
        remaining_share = total_share_amount - share_amount * count;
    }
    assert_eq!(rt.tokens.get_bonus_amount(), pre_reward);
    assert_eq!(rt.tokens.social_balance(&CHARLIE), remaining_share);
    assert_eq!(rt.currency.total_issuance(), old_total_issuance - burn_amount);
    assert_eq!(rt.tokens.pending_balance(&CHARLIE), reserved_amount);
}

#[test]
fn share_cases() {
    check_share(10000, 12);
    check_share(10000, 100);
    check_share(10000, 10);
    check_share(10, 1000);
    check_share(0, 0);
}

#[test]
fn share_with_no_target_keeps_the_share() {
    check_share(10000, 0);
}

#[test]
fn share_splits_the_social_balance() {
    let mut rt = new_runtime();
    assert!(tokens::Pallet::transfer_social(&mut rt, Origin::signed(ALICE), CHARLIE, 10_000).is_ok());
    let fee = rt.tokens.share(&mut rt.currency, &CHARLIE, &vec![100, 101]);
    assert_eq!(fee, 1000);
    assert_eq!(rt.tokens.social_balance(&100), 6);
    assert_eq!(rt.tokens.social_balance(&101), 6);
    assert_eq!(rt.tokens.social_balance(&CHARLIE), 1000 - 12);
    assert_eq!(rt.tokens.pending_balance(&CHARLIE), 1000);
    assert_eq!(rt.tokens.get_bonus_amount(), 6000);
    assert_eq!(rt.tokens.total_staking(), 1000);
}

#[test]
fn increase_and_cut_bonus() {
    let mut rt = new_runtime();
    assert!(rt.tokens.increase_bonus(&mut rt.currency, &ALICE, &500).is_ok());
    assert_eq!(rt.tokens.get_bonus_amount(), 500);
    assert_eq!(rt.tokens.total_staking(), 500);
    assert_eq!(rt.tokens.cut_bonus(&501), Err(DispatchError::Tokens(tokens::Error::BonusTooLow)));
    assert!(rt.tokens.cut_bonus(&200).is_ok());
    assert_eq!(rt.tokens.get_bonus_amount(), 300);
}

#[test]
fn currency_transfer_conserves() {
    let mut rt = new_runtime();
    let before = rt.currency.free_balance(&ALICE) + rt.currency.free_balance(&CHARLIE);
    assert!(rt.currency.transfer(&ALICE, &CHARLIE, 12345).is_ok());
    assert_eq!(rt.currency.free_balance(&ALICE) + rt.currency.free_balance(&CHARLIE), before);
    assert_eq!(rt.currency.free_balance(&CHARLIE), 12345);
    assert!(rt.currency.transfer(&CHARLIE, &ALICE, 20000).is_err());
}

#[test]
fn the_parts_of_a_share_add_up() {
    for s in [0u128, 1, 9, 10, 12345, 999_999_999_999] {
        let parts = [pre_share().mul_floor(s), pre_reserved().mul_floor(s), pre_burn().mul_floor(s), pre_fee().mul_floor(s)];
        let sum: u128 = parts.iter().sum();
        assert!(sum <= s);
        let mut rt = new_runtime();
        rt.tokens.set_social_balance(&CHARLIE, s);
        let fee = rt.tokens.share(&mut rt.currency, &CHARLIE, &vec![]);
        assert_eq!(fee, parts[3]);
        assert_eq!(rt.tokens.get_bonus_amount(), s - sum);
    }
}
