use zerodao::challenges;
use zerodao::currency::Currency;
use zerodao::perbill::Perbill;
use zerodao::primitives::{appro_ln, TIRStep};
use zerodao::refresh_reputation;
use zerodao::refresh_seeds;
use zerodao::reputation;
use zerodao::runtime::Runtime;
use zerodao::seeds;
use zerodao::system::{DispatchError, Origin, RuntimeEvent, System};
use zerodao::tokens;
use zerodao::trust;

const ALICE: u64 = 1;
const BOB: u64 = 2;
const CHARLIE: u64 = 3;
const DAVE: u64 = 4;

fn new_runtime(max_trust_count: u32) -> Runtime {
    Runtime {
        system: System::new(1),
        currency: Currency::new(),
        tokens: tokens::Pallet::new(tokens::Config { social_pool: 10000 }),
        reputation: reputation::Pallet::genesis(&reputation::GenesisConfig { period: 10 }),
        seeds: seeds::Pallet::new(),
        trust: trust::Pallet::new(trust::Config { damping_factor: Perbill::from_percent(100), max_trust_count }),
        challenges: challenges::Pallet::new(challenges::Config { challenge_timeout: 10, challenge_staking_amount: 100 }),
        refresh_reputation: refresh_reputation::Pallet::new(refresh_reputation::Config {
            max_update_count: 4,
            update_staking_amount: 1000,
            confirmation_period: 120,
            ref_repu_timeout: 100,
        }),
        refresh_seeds: refresh_seeds::Pallet::new(refresh_seeds::Config {
            seed_staking_amount: 1_000_000_000,
            seed_challenge_amount: 100_000_000,
            seed_reserv_staking: 900_000_000,
            max_seed_count: 2,
            confirmation_period: 120,
        }),
    }
}

fn trust_err(e: trust::Error) -> Result<(), DispatchError> {
    Err(DispatchError::Trust(e))
}

#[test]
fn trust_and_untrust() {
    let mut rt = new_runtime(600);
    assert!(trust::Pallet::trust(&mut rt, Origin::signed(ALICE), BOB).is_ok());
    assert!(rt.trust.is_trust(&ALICE, &BOB));
    assert!(rt.system.has_event(&RuntimeEvent::Trust(trust::Event::Trusted(ALICE, BOB))));
    assert_eq!(trust::Pallet::trust(&mut rt, Origin::signed(ALICE), BOB), trust_err(trust::Error::RepeatTrust));
    assert_eq!(trust::Pallet::trust(&mut rt, Origin::signed(ALICE), ALICE), trust_err(trust::Error::UnableTrustYourself));
    assert_eq!(rt.trust.get_trust_count(&ALICE), 1);
    assert!(trust::Pallet::untrust(&mut rt, Origin::signed(ALICE), BOB).is_ok());
    assert!(!rt.trust.is_trust(&ALICE, &BOB));
    assert_eq!(trust::Pallet::untrust(&mut rt, Origin::signed(ALICE), BOB), trust_err(trust::Error::NonExistent));
    assert_eq!(
        trust::Pallet::untrust(&mut rt, Origin::signed(ALICE), ALICE),
        trust_err(trust::Error::UnableUntrustYourself)
    );
    assert_eq!(trust::Pallet::trust(&mut rt, Origin::root(), BOB), Err(DispatchError::BadOrigin));
}

#[test]
fn trust_is_limited() {
    let mut rt = new_runtime(2);
    assert!(trust::Pallet::trust(&mut rt, Origin::signed(ALICE), BOB).is_ok());
    assert!(trust::Pallet::trust(&mut rt, Origin::signed(ALICE), CHARLIE).is_ok());
    assert_eq!(trust::Pallet::trust(&mut rt, Origin::signed(ALICE), DAVE), trust_err(trust::Error::TooMuchTrust));
}

#[test]
fn changes_during_an_update_are_recorded() {
    let mut rt = new_runtime(600);
    assert!(trust::Pallet::trust(&mut rt, Origin::signed(ALICE), BOB).is_ok());
    assert!(trust::Pallet::trust(&mut rt, Origin::signed(ALICE), CHARLIE).is_ok());
    rt.reputation.set_step(&TIRStep::Reputation);
    assert!(trust::Pallet::untrust(&mut rt, Origin::signed(ALICE), BOB).is_ok());
    assert!(trust::Pallet::trust(&mut rt, Origin::signed(ALICE), DAVE).is_ok());
    assert!(rt.trust.is_trust_old(&ALICE, &BOB));
    assert!(!rt.trust.is_trust_old(&ALICE, &DAVE));
    assert!(rt.trust.is_trust_old(&ALICE, &CHARLIE));
    assert_eq!(rt.trust.get_trust_old(&ALICE), vec![CHARLIE, BOB]);
    assert_eq!(rt.trust.get_trust_count_old(&ALICE), 2);
    assert_eq!(rt.trust.get_trust_count(&ALICE), 2);
    assert!(rt.trust.valid_nodes(&vec![ALICE, BOB]).is_ok());
    assert_eq!(rt.trust.valid_nodes(&vec![ALICE, DAVE]), trust_err(trust::Error::WrongPath));
    rt.trust.remove_all_tmp();
    assert!(!rt.trust.is_trust_old(&ALICE, &BOB));
    assert_eq!(rt.trust.get_trust_old(&ALICE), vec![CHARLIE, DAVE]);
}

#[test]
fn untrust_then_trust_during_an_update_leaves_no_change() {
    let mut rt = new_runtime(600);
    assert!(trust::Pallet::trust(&mut rt, Origin::signed(ALICE), BOB).is_ok());
    rt.reputation.set_step(&TIRStep::Seed);
    assert!(trust::Pallet::untrust(&mut rt, Origin::signed(ALICE), BOB).is_ok());
    assert!(trust::Pallet::trust(&mut rt, Origin::signed(ALICE), BOB).is_ok());
    let temp = rt.trust.trust_temp_list(&ALICE);
    assert_eq!(temp.trust.len(), 0);
    assert_eq!(temp.untrust.len(), 0);
}

#[test]
fn computed_path_from_a_seed() {
    let mut rt = new_runtime(600);
    rt.seeds.add_seed(&mut rt.system, &ALICE);
    assert!(trust::Pallet::trust(&mut rt, Origin::signed(ALICE), BOB).is_ok());
    assert!(trust::Pallet::trust(&mut rt, Origin::signed(BOB), CHARLIE).is_ok());
    assert_eq!(rt.trust.computed_path(&rt.seeds, &rt.reputation, &vec![ALICE, BOB, CHARLIE]), Ok((8, 5)));
    assert_eq!(
        rt.trust.computed_path(&rt.seeds, &rt.reputation, &vec![BOB, CHARLIE]),
        Err(DispatchError::Trust(trust::Error::NotSeed))
    );
    assert_eq!(
        rt.trust.computed_path(&rt.seeds, &rt.reputation, &vec![ALICE, CHARLIE]),
        Err(DispatchError::Trust(trust::Error::WrongPath))
    );
}

#[test]
fn appro_ln_values() {
    assert_eq!(appro_ln(0), 1);
    assert_eq!(appro_ln(2), 1);
    assert_eq!(appro_ln(3), 2);
    assert_eq!(appro_ln(20), 3);
    assert_eq!(appro_ln(54), 4);
    assert_eq!(appro_ln(148), 5);
    assert_eq!(appro_ln(403), 6);
    assert_eq!(appro_ln(1000), 7);
    assert_eq!(appro_ln(1097), 8);
    assert_eq!(appro_ln(u32::MAX), 8);
}

#[test]
fn trust_then_untrust_during_an_update_restores_everything() {
    let mut rt = new_runtime(600);
    assert!(trust::Pallet::trust(&mut rt, Origin::signed(ALICE), CHARLIE).is_ok());
    rt.reputation.set_step(&TIRStep::Reputation);
    let list_before = rt.trust.trust_list(&ALICE);
    assert!(trust::Pallet::trust(&mut rt, Origin::signed(ALICE), BOB).is_ok());
    assert_eq!(rt.trust.trust_temp_list(&ALICE).untrust.len(), 1);
    assert!(trust::Pallet::untrust(&mut rt, Origin::signed(ALICE), BOB).is_ok());
    assert_eq!(rt.trust.trust_list(&ALICE), list_before);
    let temp = rt.trust.trust_temp_list(&ALICE);
    assert_eq!(temp.trust.len(), 0);
    assert_eq!(temp.untrust.len(), 0);
}
