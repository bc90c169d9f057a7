//! Challenge games: a challenger disputes data uploaded by a pathfinder, the two sides
//! upload and examine data in turns, and the pool goes to the winner.
use crate::currency::{free_of, Currency, CurrencyModel};
use crate::primitives::{
    spec_default_metadata, spec_is_allowed_sweeper, spec_restart, spec_with_fee, AccountId,
    Balance, BlockNumber, ChallengeStatus, Metadata, Pool, Progress, checked_with_fee,
};
use crate::storage::{get_or, AppAccount, AppId, StorageMap};
use crate::perbill::spec_mul_floor;
use crate::system::DispatchError;
use crate::tokens::{spec_release, spec_staking, TokensModel};
use vstd::prelude::*;

verus! {

/// The largest number of items that one call of `next` may upload.
pub const MAX_UPDATE_COUNT: u32 = 257;

/// The constants of the pallet.
#[derive(Clone, Copy, PartialEq, Eq, Structural, Debug)]
pub struct Config {
    /// After this many blocks without an update a challenge has timed out.
    pub challenge_timeout: BlockNumber,
    /// The amount that a challenger stakes.
    pub challenge_staking_amount: Balance,
}

/// Errors of the pallet.
#[derive(Clone, Copy, PartialEq, Eq, Structural, Debug)]
pub enum Error {
    /// No permission.
    NoPermission,
    /// Paths and seeds do not match.
    NotMatch,
    /// Calculation overflow.
    Overflow,
    /// No challenge allowed.
    NoChallengeAllowed,
    /// Error getting user reputation.
    ReputationError,
    /// Too soon.
    TooSoon,
    /// Wrong progress.
    ErrProgress,
    /// Non-existent.
    NonExistent,
    /// Too many uploads.
    TooMany,
    /// An error in progress has occurred.
    ProgressErr,
    /// Status does not match.
    StatusErr,
    /// Not available for collection.
    NotAllowedSweeper,
}

/// Events of the pallet.
#[derive(Clone, Copy, PartialEq, Eq, Structural, Debug)]
pub enum Event {
    /// A challenge was launched \[challenger, target, pathfinder, quantity\].
    Challenged(AccountId, AccountId, AccountId, u32),
}

/// What contracts see of the pallet's storage.
#[verifier::ext_equal]
pub struct ChallengesModel {
    pub metadatas: Map<AppAccount, Metadata>,
    pub last_at: Map<AppId, BlockNumber>,
}

/// The storage of the pallet.
pub struct Pallet {
    pub config: Config,
    pub metadatas: StorageMap<AppAccount, Metadata>,
    pub last_at: StorageMap<AppId, BlockNumber>,
}

/// The key of the challenge against `target` under `app_id`.
pub open spec fn key(app_id: AppId, target: AccountId) -> AppAccount {
    AppAccount { app_id, account: target }
}

/// The challenge against `target` under `app_id`, or the default.
pub open spec fn meta_of(s: ChallengesModel, app_id: AppId, target: AccountId) -> Metadata {
    get_or(s.metadatas, key(app_id, target), spec_default_metadata())
}

/// Whether the upload of `m` is complete.
pub open spec fn is_done(m: Metadata) -> bool {
    m.progress.total == m.progress.done
}

/// Whether a challenge against `target` under `app_id` is stored.
pub open spec fn has_meta(s: ChallengesModel, app_id: AppId, target: AccountId) -> bool {
    s.metadatas.contains_key(key(app_id, target))
}

/// `s` with the challenge against `target` under `app_id` set to `m`.
pub open spec fn with_meta(s: ChallengesModel, app_id: AppId, target: AccountId, m: Metadata) -> ChallengesModel {
    ChallengesModel { metadatas: s.metadatas.insert(key(app_id, target), m), ..s }
}

/// `s` after an upload under `app_id` at `now`.
pub open spec fn after_upload(s: ChallengesModel, app_id: AppId, now: BlockNumber) -> ChallengesModel {
    ChallengesModel { last_at: s.last_at.insert(app_id, now), ..s }
}

/// Whether a challenge last updated at `last` has timed out at `now`.
pub open spec fn spec_is_timeout(cfg: Config, last: BlockNumber, now: BlockNumber) -> bool {
    now > cfg.challenge_timeout + last
}

/// Whether no challenge under `app_id` is stored.
pub open spec fn spec_is_all_harvest(s: ChallengesModel, app_id: AppId) -> bool {
    forall|k: AppAccount| #[trigger] s.metadatas.contains_key(k) ==> k.app_id != app_id
}

/// The sweeper's fee and the awards out of `total`, when `who` may collect at `now`.
pub open spec fn spec_checked_sweeper_fee(
    cfg: Config,
    m: Metadata,
    who: AccountId,
    total: Balance,
    now: BlockNumber,
) -> Result<(Balance, Balance), DispatchError> {
    if m.challenger != who && m.pathfinder != who {
        if spec_is_allowed_sweeper(m.last_update, now) {
            Ok(spec_with_fee(total))
        } else {
            Err(DispatchError::Challenges(Error::NotAllowedSweeper))
        }
    } else if spec_is_timeout(cfg, m.last_update, now) {
        Ok((0, total))
    } else {
        Err(DispatchError::Challenges(Error::TooSoon))
    }
}

/// How `awards` are divided: \[pathfinder's part, challenger's part, score handed back\].
pub open spec fn spec_division(m: Metadata, awards: Balance) -> (Balance, Balance, Option<u64>) {
    let done = m.progress.total == m.progress.done;
    match m.status {
        ChallengeStatus::Free => (awards, 0, None),
        ChallengeStatus::Reply => if done {
            (awards, 0, None)
        } else {
            (0, awards, None)
        },
        ChallengeStatus::Examine => (0, awards, Some(m.score)),
        ChallengeStatus::Evidence => if done {
            (0, awards, Some(m.score))
        } else {
            (awards, 0, Some(m.score))
        },
        ChallengeStatus::Arbitral => if m.joint_benefits {
            ((awards / 2) as u128, (awards - awards / 2) as u128, None)
        } else {
            (awards, 0, Some(m.score))
        },
    }
}

/// Releases `amount` to `who` when it is not zero.
pub open spec fn spec_release_if(
    t: TokensModel,
    c: CurrencyModel,
    pool: AccountId,
    who: AccountId,
    amount: Balance,
) -> Result<(TokensModel, CurrencyModel), DispatchError> {
    if amount > 0 {
        spec_release(t, c, pool, who, amount)
    } else {
        Ok((t, c))
    }
}

/// The token pallet and ledger after the three payments of a harvest.
pub open spec fn spec_pay_out(
    t: TokensModel,
    c: CurrencyModel,
    pool: AccountId,
    who: AccountId,
    sweeper_fee: Balance,
    m: Metadata,
    pathfinder_amount: Balance,
    challenger_amount: Balance,
) -> Result<(TokensModel, CurrencyModel), DispatchError> {
    match spec_release_if(t, c, pool, who, sweeper_fee) {
        Err(e) => Err(e),
        Ok((t1, c1)) => match spec_release_if(t1, c1, pool, m.pathfinder, pathfinder_amount) {
            Err(e) => Err(e),
            Ok((t2, c2)) => spec_release_if(t2, c2, pool, m.challenger, challenger_amount),
        },
    }
}

/// What `harvest` results in: the pallet, the token pallet and the ledger, and the score
/// handed back; or the error.
pub open spec fn spec_harvest(
    s: ChallengesModel,
    cfg: Config,
    t: TokensModel,
    c: CurrencyModel,
    pool: AccountId,
    who: AccountId,
    app_id: AppId,
    target: AccountId,
    now: BlockNumber,
) -> Result<(ChallengesModel, TokensModel, CurrencyModel, Option<u64>), DispatchError> {
    if !has_meta(s, app_id, target) {
        Err(DispatchError::Challenges(Error::NonExistent))
    } else {
        let m = meta_of(s, app_id, target);
        if m.pool.staking + m.pool.earnings > u128::MAX {
            Err(DispatchError::Challenges(Error::Overflow))
        } else {
            let total = (m.pool.staking + m.pool.earnings) as u128;
            match spec_checked_sweeper_fee(cfg, m, who, total, now) {
                Err(e) => Err(e),
                Ok((fee, awards)) => {
                    let (p, ch, score) = spec_division(m, awards);
                    match spec_pay_out(t, c, pool, who, fee, m, p, ch) {
                        Err(e) => Err(e),
                        Ok((t2, c2)) => Ok(
                            (
                                ChallengesModel {
                                    metadatas: s.metadatas.remove(key(app_id, target)),
                                    ..s
                                },
                                t2,
                                c2,
                                score,
                            ),
                        ),
                    }
                },
            }
        }
    }
}

/// The challenge that `launch` stores, or the error raised before any staking.
pub open spec fn spec_launch_meta(
    s: ChallengesModel,
    cfg: Config,
    app_id: AppId,
    target: AccountId,
    m: Metadata,
    now: BlockNumber,
) -> Result<Metadata, DispatchError> {
    let old = meta_of(s, app_id, target);
    if has_meta(s, app_id, target) && old.status != ChallengeStatus::Free {
        Err(DispatchError::Challenges(Error::NoChallengeAllowed))
    } else if old.pool.staking + m.pool.staking + cfg.challenge_staking_amount > u128::MAX
        || old.pool.earnings + m.pool.earnings > u128::MAX {
        Err(DispatchError::Challenges(Error::Overflow))
    } else {
        Ok(
            Metadata {
                pool: Pool {
                    staking: (old.pool.staking + m.pool.staking + cfg.challenge_staking_amount) as u128,
                    earnings: (old.pool.earnings + m.pool.earnings) as u128,
                },
                progress: Progress { done: 0, total: m.progress.total },
                last_update: now,
                status: ChallengeStatus::Examine,
                score: m.score,
                remark: m.remark,
                pathfinder: m.pathfinder,
                challenger: m.challenger,
                joint_benefits: old.joint_benefits,
            },
        )
    }
}

/// The challenge after `next` advanced it by `count`, before the caller's update; or the error.
pub open spec fn spec_next_begin(
    s: ChallengesModel,
    app_id: AppId,
    who: AccountId,
    target: AccountId,
    count: u32,
) -> Result<Metadata, DispatchError> {
    if !has_meta(s, app_id, target) {
        Err(DispatchError::Challenges(Error::NonExistent))
    } else {
        let m = meta_of(s, app_id, target);
        let done = if m.progress.done + count > u32::MAX {
            u32::MAX
        } else {
            (m.progress.done + count) as u32
        };
        if count > MAX_UPDATE_COUNT {
            Err(DispatchError::Challenges(Error::TooMany))
        } else if m.status == ChallengeStatus::Reply && m.pathfinder != who {
            Err(DispatchError::Challenges(Error::NoPermission))
        } else if m.status != ChallengeStatus::Reply && m.challenger != who {
            Err(DispatchError::Challenges(Error::NoPermission))
        } else if m.progress.total < done {
            Err(DispatchError::Challenges(Error::ProgressErr))
        } else {
            Ok(Metadata { progress: Progress { total: m.progress.total, done }, ..m })
        }
    }
}

/// The challenge after `examine` of the data under `index`; or the error.
pub open spec fn spec_examine(
    s: ChallengesModel,
    app_id: AppId,
    who: AccountId,
    target: AccountId,
    index: u32,
    now: BlockNumber,
) -> Result<ChallengesModel, DispatchError> {
    if !has_meta(s, app_id, target) {
        Err(DispatchError::Challenges(Error::NonExistent))
    } else {
        let m = meta_of(s, app_id, target);
        if !(m.status == ChallengeStatus::Reply && m.progress.total == m.progress.done) {
            Err(DispatchError::Challenges(Error::NoChallengeAllowed))
        } else if m.challenger != who {
            Err(DispatchError::Challenges(Error::NoPermission))
        } else {
            Ok(
                after_upload(
                    with_meta(
                        s,
                        app_id,
                        target,
                        Metadata {
                            status: ChallengeStatus::Examine,
                            remark: index,
                            last_update: now,
                            ..m
                        },
                    ),
                    app_id,
                    now,
                ),
            )
        }
    }
}

/// The challenge after a reply of `count` out of `total` items, before the caller's update.
pub open spec fn spec_reply_begin(
    s: ChallengesModel,
    app_id: AppId,
    who: AccountId,
    target: AccountId,
    total: u32,
    count: u32,
) -> Result<Metadata, DispatchError> {
    if !has_meta(s, app_id, target) {
        Err(DispatchError::Challenges(Error::NonExistent))
    } else {
        let m = meta_of(s, app_id, target);
        if m.pathfinder != who {
            Err(DispatchError::Challenges(Error::NoPermission))
        } else if m.status != ChallengeStatus::Examine {
            Err(DispatchError::Challenges(Error::StatusErr))
        } else if total < count {
            Err(DispatchError::Challenges(Error::ProgressErr))
        } else {
            Ok(
                Metadata {
                    progress: Progress { total, done: count },
                    status: ChallengeStatus::Reply,
                    ..m
                },
            )
        }
    }
}

/// The challenge that `evidence` hands to the caller's check; or the error.
pub open spec fn spec_evidence_begin(
    s: ChallengesModel,
    app_id: AppId,
    who: AccountId,
    target: AccountId,
) -> Result<Metadata, DispatchError> {
    if !has_meta(s, app_id, target) {
        Err(DispatchError::Challenges(Error::NonExistent))
    } else {
        let m = meta_of(s, app_id, target);
        if m.challenger != who {
            Err(DispatchError::Challenges(Error::NoPermission))
        } else if m.progress.total != m.progress.done {
            Err(DispatchError::Challenges(Error::ProgressErr))
        } else if m.status == ChallengeStatus::Examine {
            Err(DispatchError::Challenges(Error::StatusErr))
        } else {
            Ok(m)
        }
    }
}

/// The challenge after `evidence` with the caller's verdict `needs_arbitration`.
pub open spec fn spec_evidence_finish(m: Metadata, needs_arbitration: bool) -> Metadata {
    if needs_arbitration {
        Metadata { status: ChallengeStatus::Arbitral, ..m }
    } else {
        spec_restart(m, true)
    }
}

/// The challenge that `arbitral` hands to the caller, and whether `who` has to stake first;
/// or the error.
pub open spec fn spec_arbitral_begin(
    s: ChallengesModel,
    cfg: Config,
    app_id: AppId,
    who: AccountId,
    target: AccountId,
    now: BlockNumber,
) -> Result<(Metadata, bool), DispatchError> {
    if !has_meta(s, app_id, target) {
        Err(DispatchError::Challenges(Error::NonExistent))
    } else {
        let m = meta_of(s, app_id, target);
        if m.status == ChallengeStatus::Examine {
            Err(DispatchError::Challenges(Error::StatusErr))
        } else if m.progress.total != m.progress.done {
            Err(DispatchError::Challenges(Error::ProgressErr))
        } else if m.challenger != who && !spec_is_timeout(cfg, m.last_update, now) {
            Err(DispatchError::Challenges(Error::NoPermission))
        } else if m.challenger != who {
            Ok((Metadata { challenger: who, ..m }, true))
        } else {
            Ok((m, false))
        }
    }
}

/// The settlement of `m`: with `restart` the game starts again (half of the stake goes to
/// the challenger when the benefits are shared); otherwise `joint_benefits` and `score` are
/// recorded. Returns the challenge, the token pallet and the ledger; or the error.
pub open spec fn spec_settle(
    m: Metadata,
    t: TokensModel,
    c: CurrencyModel,
    pool: AccountId,
    restart: bool,
    joint_benefits: bool,
    score: u64,
) -> Result<(Metadata, TokensModel, CurrencyModel), DispatchError> {
    if restart {
        if joint_benefits {
            let fee = (m.pool.staking / 2) as u128;
            match spec_release(t, c, pool, m.challenger, fee) {
                Err(e) => Err(e),
                Ok((t2, c2)) => Ok(
                    (
                        spec_restart(
                            Metadata {
                                pool: Pool { staking: (m.pool.staking - fee) as u128, ..m.pool },
                                ..m
                            },
                            false,
                        ),
                        t2,
                        c2,
                    ),
                ),
            }
        } else {
            Ok((spec_restart(m, true), t, c))
        }
    } else {
        Ok((Metadata { joint_benefits, score, ..m }, t, c))
    }
}

/// Harvesting a challenge removes it: a second harvest finds nothing.
pub proof fn law_harvest_removes(
    s: ChallengesModel,
    cfg: Config,
    t: TokensModel,
    c: CurrencyModel,
    pool: AccountId,
    who: AccountId,
    app_id: AppId,
    target: AccountId,
    now: BlockNumber,
    who2: AccountId,
    later: BlockNumber,
)
    requires
        spec_harvest(s, cfg, t, c, pool, who, app_id, target, now) is Ok,
    ensures
        ({
            let (s2, t2, c2, _score) = spec_harvest(s, cfg, t, c, pool, who, app_id, target, now)->Ok_0;
            &&& !has_meta(s2, app_id, target)
            &&& spec_harvest(s2, cfg, t2, c2, pool, who2, app_id, target, later) == Err::<
                (ChallengesModel, TokensModel, CurrencyModel, Option<u64>),
                DispatchError,
            >(DispatchError::Challenges(Error::NonExistent))
        }),
{
}

/// The pool of a harvested challenge is paid out in full: the sweeper's fee, the
/// pathfinder's part and the challenger's part add up to the stakes and the earnings of the
/// challenge, and the total staked drops by as much.
pub proof fn law_harvest_pays_the_pool(
    s: ChallengesModel,
    cfg: Config,
    t: TokensModel,
    c: CurrencyModel,
    pool: AccountId,
    who: AccountId,
    app_id: AppId,
    target: AccountId,
    now: BlockNumber,
)
    requires
        spec_harvest(s, cfg, t, c, pool, who, app_id, target, now) is Ok,
    ensures
        ({
            let m = meta_of(s, app_id, target);
            let total = (m.pool.staking + m.pool.earnings) as u128;
            let (fee, awards) = spec_checked_sweeper_fee(cfg, m, who, total, now)->Ok_0;
            let (p, ch, _score) = spec_division(m, awards);
            &&& fee + p + ch == m.pool.staking + m.pool.earnings
            &&& spec_harvest(s, cfg, t, c, pool, who, app_id, target, now)->Ok_0.1.total_staking == t.total_staking
                - (m.pool.staking + m.pool.earnings)
        }),
{
    let m = meta_of(s, app_id, target);
    let total = (m.pool.staking + m.pool.earnings) as u128;
    let f = spec_mul_floor(20_000_000, total as int);
    assert(0 <= f <= total) by (nonlinear_arith)
        requires
            f == (total * 20_000_000) / 1_000_000_000int,
            total >= 0,
    ;
}

/// A challenge harvested while it is still under examination (the pathfinder never replied)
/// is won by the challenger: it receives all the awards (the pool less the sweeper's fee),
/// the pathfinder nothing, and its score is handed back.
pub proof fn law_harvest_in_examine_pays_the_challenger(
    s: ChallengesModel,
    cfg: Config,
    t: TokensModel,
    c: CurrencyModel,
    pool: AccountId,
    who: AccountId,
    app_id: AppId,
    target: AccountId,
    now: BlockNumber,
)
    requires
        spec_harvest(s, cfg, t, c, pool, who, app_id, target, now) is Ok,
        meta_of(s, app_id, target).status == ChallengeStatus::Examine,
        meta_of(s, app_id, target).challenger != meta_of(s, app_id, target).pathfinder,
        meta_of(s, app_id, target).challenger != pool,
        meta_of(s, app_id, target).pathfinder != pool,
    ensures
        ({
            let m = meta_of(s, app_id, target);
            let total = (m.pool.staking + m.pool.earnings) as u128;
            let awards = spec_checked_sweeper_fee(cfg, m, who, total, now)->Ok_0.1;
            let r = spec_harvest(s, cfg, t, c, pool, who, app_id, target, now)->Ok_0;
            &&& free_of(r.2, m.challenger) == free_of(c, m.challenger) + awards
            &&& free_of(r.2, m.pathfinder) == free_of(c, m.pathfinder)
            &&& r.3 == Some(m.score)
        }),
{
}

/// A launched challenge is under examination, so no other challenge of the same target can
/// be launched until it is settled.
pub proof fn law_launch_blocks_relaunch(
    s: ChallengesModel,
    cfg: Config,
    app_id: AppId,
    target: AccountId,
    m: Metadata,
    now: BlockNumber,
    m2: Metadata,
    later: BlockNumber,
)
    requires
        spec_launch_meta(s, cfg, app_id, target, m, now) is Ok,
    ensures
        spec_launch_meta(
            after_upload(with_meta(s, app_id, target, spec_launch_meta(s, cfg, app_id, target, m, now)->Ok_0), app_id, now),
            cfg,
            app_id,
            target,
            m2,
            later,
        ) == Err::<Metadata, DispatchError>(DispatchError::Challenges(Error::NoChallengeAllowed)),
{
    let s2 = after_upload(with_meta(s, app_id, target, spec_launch_meta(s, cfg, app_id, target, m, now)->Ok_0), app_id, now);
    assert(has_meta(s2, app_id, target));
}

impl Pallet {
    /// What contracts see of the storage.
    pub open spec fn view(&self) -> ChallengesModel {
        ChallengesModel { metadatas: self.metadatas@, last_at: self.last_at@ }
    }

    /// Empty storage with the given constants.
    pub fn new(config: Config) -> (p: Pallet)
        ensures
            p.config == config,
            p@.metadatas == Map::<AppAccount, Metadata>::empty(),
            p@.last_at == Map::<AppId, BlockNumber>::empty(),
    {
        Pallet { config, metadatas: StorageMap::new(), last_at: StorageMap::new() }
    }

    /// The amount that a challenger stakes.
    pub fn challenge_staking_amount(&self) -> (b: Balance)
        ensures
            b == self.config.challenge_staking_amount,
    {
        self.config.challenge_staking_amount
    }

    /// The challenge against `target` under `app_id`, or the default.
    pub fn get_metadata(&self, app_id: &AppId, target: &AccountId) -> (m: Metadata)
        ensures
            m == meta_of(self@, *app_id, *target),
    {
        match self.metadatas.get(&AppAccount { app_id: *app_id, account: *target }) {
            Some(m) => *m,
            None => Metadata::default(),
        }
    }

    /// The challenge against `target` under `app_id`, if stored.
    fn get_metadata_exist(&self, app_id: &AppId, target: &AccountId) -> (r: Result<Metadata, DispatchError>)
        ensures
            has_meta(self@, *app_id, *target) ==> r == Ok::<Metadata, DispatchError>(meta_of(self@, *app_id, *target)),
            !has_meta(self@, *app_id, *target) ==> r == Err::<Metadata, DispatchError>(
                DispatchError::Challenges(Error::NonExistent),
            ),
    {
        match self.metadatas.get(&AppAccount { app_id: *app_id, account: *target }) {
            Some(m) => Ok(*m),
            None => Err(DispatchError::Challenges(Error::NonExistent)),
        }
    }

    /// Directly sets the challenge against `target` under `app_id`.
    pub fn set_metadata(&mut self, app_id: &AppId, target: &AccountId, metadata: &Metadata)
        ensures
            final(self).config == old(self).config,
            final(self)@ == with_meta(old(self)@, *app_id, *target, *metadata),
    {
        self.metadatas.insert(AppAccount { app_id: *app_id, account: *target }, *metadata);
    }

    /// Removes the challenge against `target` under `app_id`.
    pub fn remove(&mut self, app_id: &AppId, target: &AccountId)
        ensures
            final(self).config == old(self).config,
            final(self)@ == (ChallengesModel {
                metadatas: old(self)@.metadatas.remove(key(*app_id, *target)),
                ..old(self)@
            }),
    {
        let _ = self.metadatas.remove(&AppAccount { app_id: *app_id, account: *target });
    }

    /// Records an upload under `app_id` at `now`.
    pub fn after_upload(&mut self, app_id: &AppId, now: BlockNumber)
        ensures
            final(self).config == old(self).config,
            final(self)@ == after_upload(old(self)@, *app_id, now),
    {
        self.last_at.insert(*app_id, now);
    }

    /// Whether a challenge last updated at `last_update` has timed out at `now`.
    pub fn is_challenge_timeout(&self, last_update: &BlockNumber, now: BlockNumber) -> (b: bool)
        ensures
            b == spec_is_timeout(self.config, *last_update, now),
    {
        (now as u128) > (self.config.challenge_timeout as u128) + (*last_update as u128)
    }

    /// Whether every challenge under `app_id` has been harvested.
    pub fn is_all_harvest(&self, app_id: &AppId) -> (b: bool)
        ensures
            b == spec_is_all_harvest(self@, *app_id),
    {
        let n = self.metadatas.len();
        let mut i: usize = 0;
        while i < n
            invariant
                0 <= i <= n,
                n == self.metadatas.pairs().len(),
                forall|j: int| 0 <= j < i ==> (#[trigger] self.metadatas.pairs()[j]).0.app_id != *app_id,
            decreases n - i,
        {
            let (k, _) = self.metadatas.pair_at(i);
            if crate::storage::app_id_eq(&k.app_id, app_id) {
                assert(self@.metadatas.contains_key(*k));
                return false;
            }
            i = i + 1;
        }
        proof {
            assert forall|k: AppAccount| #[trigger] self@.metadatas.contains_key(k) implies k.app_id
                != *app_id by {
                let j = choose|j: int| 0 <= j < self.metadatas.pairs().len() && #[trigger] self.metadatas.pairs()[j].0 == k;
                assert(self.metadatas.pairs()[j].0.app_id != *app_id);
            }
        }
        true
    }

    /// Whether every challenge under `app_id` has timed out at `now`.
    pub fn is_all_timeout(&self, app_id: &AppId, now: &BlockNumber) -> (b: bool)
        ensures
            b == spec_is_timeout(self.config, get_or(self@.last_at, *app_id, 0u64), *now),
    {
        let last = match self.last_at.get(app_id) {
            Some(l) => *l,
            None => 0,
        };
        self.is_challenge_timeout(&last, *now)
    }

    /// Sets the state of the challenge against `target` under `app_id`.
    pub fn set_status(&mut self, app_id: &AppId, target: &AccountId, status: &ChallengeStatus)
        ensures
            final(self).config == old(self).config,
            final(self)@ == with_meta(
                old(self)@,
                *app_id,
                *target,
                Metadata { status: *status, ..meta_of(old(self)@, *app_id, *target) },
            ),
    {
        let mut m = self.get_metadata(app_id, target);
        m.set_status(status);
        self.set_metadata(app_id, target, &m);
    }

    /// The sweeper's fee and the awards out of `total_amount` when `who` collects at `now`.
    pub fn checked_sweeper_fee(
        &self,
        challenge: &Metadata,
        who: &AccountId,
        total_amount: &Balance,
        now: BlockNumber,
    ) -> (r: Result<(Balance, Balance), DispatchError>)
        ensures
            r == spec_checked_sweeper_fee(self.config, *challenge, *who, *total_amount, now),
    {
        let is_sweeper = challenge.challenger != *who && challenge.pathfinder != *who;
        if is_sweeper {
            match checked_with_fee(*total_amount, challenge.last_update, now) {
                Some(r) => Ok(r),
                None => Err(DispatchError::Challenges(Error::NotAllowedSweeper)),
            }
        } else {
            if !self.is_challenge_timeout(&challenge.last_update, now) {
                return Err(DispatchError::Challenges(Error::TooSoon));
            }
            Ok((0, *total_amount))
        }
    }
}


/// The pallet after the challenge `m`, advanced by `next`, records `score` and `remark` at `now`.
pub open spec fn spec_next_finish(
    s: ChallengesModel,
    app_id: AppId,
    target: AccountId,
    m: Metadata,
    score: u64,
    remark: u32,
    now: BlockNumber,
) -> ChallengesModel {
    after_upload(
        with_meta(s, app_id, target, Metadata { score, remark, last_update: now, ..m }),
        app_id,
        now,
    )
}

/// The pallet after the reply `m` records `score` at `now`.
pub open spec fn spec_reply_finish(
    s: ChallengesModel,
    app_id: AppId,
    target: AccountId,
    m: Metadata,
    score: u64,
    now: BlockNumber,
) -> ChallengesModel {
    with_meta(s, app_id, target, Metadata { score, last_update: now, ..m })
}

/// The pallet after `evidence` with the verdict `needs_arbitration` at `now`.
pub open spec fn spec_evidence_apply(
    s: ChallengesModel,
    app_id: AppId,
    target: AccountId,
    m: Metadata,
    needs_arbitration: bool,
    now: BlockNumber,
) -> ChallengesModel {
    after_upload(with_meta(s, app_id, target, spec_evidence_finish(m, needs_arbitration)), app_id, now)
}

/// The score that `evidence` hands back with the verdict `needs_arbitration`.
pub open spec fn spec_evidence_score(m: Metadata, needs_arbitration: bool) -> Option<u64> {
    if needs_arbitration {
        None
    } else {
        Some(m.score)
    }
}

/// Staking by a new challenger before an arbitration, when needed.
pub open spec fn spec_stake_if(
    cfg: Config,
    t: TokensModel,
    c: CurrencyModel,
    pool: AccountId,
    who: AccountId,
    needs_stake: bool,
) -> Result<(TokensModel, CurrencyModel), DispatchError> {
    if needs_stake {
        spec_staking(t, c, pool, who, cfg.challenge_staking_amount)
    } else {
        Ok((t, c))
    }
}

/// The pallet, token pallet and ledger after the arbitration of `m` settles with
/// `joint_benefits`, `restart` and `score` at `now`; or the error.
pub open spec fn spec_arbitral_finish(
    s: ChallengesModel,
    t: TokensModel,
    c: CurrencyModel,
    pool: AccountId,
    app_id: AppId,
    target: AccountId,
    m: Metadata,
    joint_benefits: bool,
    restart: bool,
    score: u64,
    now: BlockNumber,
) -> Result<(ChallengesModel, TokensModel, CurrencyModel), DispatchError> {
    match spec_settle(m, t, c, pool, restart, joint_benefits, score) {
        Err(e) => Err(e),
        Ok((m2, t2, c2)) => Ok(
            (
                after_upload(with_meta(s, app_id, target, Metadata { last_update: now, ..m2 }), app_id, now),
                t2,
                c2,
            ),
        ),
    }
}

/// The pallet, token pallet and ledger after `settle` at `now`; or the error.
pub open spec fn spec_settle_call(
    s: ChallengesModel,
    t: TokensModel,
    c: CurrencyModel,
    pool: AccountId,
    app_id: AppId,
    target: AccountId,
    joint_benefits: bool,
    restart: bool,
    score: u64,
    now: BlockNumber,
) -> Result<(ChallengesModel, TokensModel, CurrencyModel), DispatchError> {
    if !has_meta(s, app_id, target) {
        Err(DispatchError::Challenges(Error::NonExistent))
    } else {
        let m = meta_of(s, app_id, target);
        if m.progress.total != m.progress.done {
            Err(DispatchError::Challenges(Error::ProgressErr))
        } else {
            match spec_settle(m, t, c, pool, restart, joint_benefits, score) {
                Err(e) => Err(e),
                Ok((m2, t2, c2)) => Ok(
                    (with_meta(s, app_id, target, Metadata { last_update: now, ..m2 }), t2, c2),
                ),
            }
        }
    }
}

impl Pallet {
    /// How `awards` are divided between the pathfinder and the challenger.
    fn division(challenge: &Metadata, awards: Balance) -> (r: (Balance, Balance, Option<u64>))
        ensures
            r == spec_division(*challenge, awards),
    {
        let is_all_done = challenge.is_all_done();
        match challenge.status {
            ChallengeStatus::Free => (awards, 0, None),
            ChallengeStatus::Reply => if is_all_done {
                (awards, 0, None)
            } else {
                (0, awards, None)
            },
            ChallengeStatus::Examine => (0, awards, Some(challenge.score)),
            ChallengeStatus::Evidence => if is_all_done {
                (0, awards, Some(challenge.score))
            } else {
                (awards, 0, Some(challenge.score))
            },
            ChallengeStatus::Arbitral => if challenge.joint_benefits {
                let p = awards / 2;
                (p, awards - p, None)
            } else {
                (awards, 0, Some(challenge.score))
            },
        }
    }

    /// Releases `amount` to `who` when it is not zero.
    fn release_if(
        tokens: &mut crate::tokens::Pallet,
        cur: &mut Currency,
        who: &AccountId,
        amount: Balance,
    ) -> (r: Result<(), DispatchError>)
        ensures
            final(tokens).config == old(tokens).config,
            match spec_release_if(old(tokens)@, old(cur)@, old(tokens).config.social_pool, *who, amount) {
                Ok((t, c)) => r is Ok && final(tokens)@ == t && final(cur)@ == c,
                Err(e) => r == Err::<(), DispatchError>(e) && final(tokens)@ == old(tokens)@
                    && final(cur)@ == old(cur)@,
            },
    {
        if amount > 0 {
            tokens.release(cur, who, &amount)
        } else {
            Ok(())
        }
    }

    /// The three payments of a harvest; on an error the token pallet and the ledger are
    /// restored.
    fn pay_out(
        tokens: &mut crate::tokens::Pallet,
        cur: &mut Currency,
        who: &AccountId,
        sweeper_fee: Balance,
        challenge: &Metadata,
        pathfinder_amount: Balance,
        challenger_amount: Balance,
    ) -> (r: Result<(), DispatchError>)
        ensures
            final(tokens).config == old(tokens).config,
            match spec_pay_out(
                old(tokens)@,
                old(cur)@,
                old(tokens).config.social_pool,
                *who,
                sweeper_fee,
                *challenge,
                pathfinder_amount,
                challenger_amount,
            ) {
                Ok((t, c)) => r is Ok && final(tokens)@ == t && final(cur)@ == c,
                Err(e) => r == Err::<(), DispatchError>(e) && final(tokens)@ == old(tokens)@
                    && final(cur)@ == old(cur)@,
            },
    {
        let saved_tokens = tokens.duplicate();
        let saved_cur = cur.duplicate();
        let r1 = Self::release_if(tokens, cur, who, sweeper_fee);
        if let Err(e) = r1 {
            return Err(e);
        }
        let r2 = Self::release_if(tokens, cur, &challenge.pathfinder, pathfinder_amount);
        if let Err(e) = r2 {
            *tokens = saved_tokens;
            *cur = saved_cur;
            return Err(e);
        }
        let r3 = Self::release_if(tokens, cur, &challenge.challenger, challenger_amount);
        if let Err(e) = r3 {
            *tokens = saved_tokens;
            *cur = saved_cur;
            return Err(e);
        }
        Ok(())
    }

    /// Collects the benefits of the challenge against `target` under `app_id` on behalf of
    /// `who` and removes the challenge. The pool goes to the pathfinder or the challenger
    /// according to the state, whether the upload is complete and whether the benefits are
    /// shared; a sweeper gets a fee. Returns the score when the challenger's data stands.
    pub fn harvest(
        &mut self,
        tokens: &mut crate::tokens::Pallet,
        cur: &mut Currency,
        who: &AccountId,
        app_id: &AppId,
        target: &AccountId,
        now: BlockNumber,
    ) -> (r: Result<Option<u64>, DispatchError>)
        ensures
            final(self).config == old(self).config,
            final(tokens).config == old(tokens).config,
            match spec_harvest(
                old(self)@,
                old(self).config,
                old(tokens)@,
                old(cur)@,
                old(tokens).config.social_pool,
                *who,
                *app_id,
                *target,
                now,
            ) {
                Ok((s, t, c, score)) => r == Ok::<Option<u64>, DispatchError>(score) && final(self)@ == s
                    && final(tokens)@ == t && final(cur)@ == c,
                Err(e) => r == Err::<Option<u64>, DispatchError>(e) && final(self)@ == old(self)@
                    && final(tokens)@ == old(tokens)@ && final(cur)@ == old(cur)@,
            },
    {
        let challenge = self.get_metadata_exist(app_id, target)?;
        let total_amount = match challenge.total_amount() {
            Some(t) => t,
            None => {
                return Err(DispatchError::Challenges(Error::Overflow));
            },
        };
        let (sweeper_fee, awards) = self.checked_sweeper_fee(&challenge, who, &total_amount, now)?;
        let (pathfinder_amount, challenger_amount, maybe_score) = Self::division(&challenge, awards);
        Self::pay_out(tokens, cur, who, sweeper_fee, &challenge, pathfinder_amount, challenger_amount)?;
        self.remove(app_id, target);
        Ok(maybe_score)
    }

    /// Launches a challenge against `target` under `app_id`, with `metadata` giving its
    /// initial data. The challenger stakes the challenge amount.
    pub fn launch(
        &mut self,
        tokens: &mut crate::tokens::Pallet,
        cur: &mut Currency,
        sys: &mut crate::system::System,
        app_id: &AppId,
        target: &AccountId,
        metadata: &Metadata,
    ) -> (r: Result<(), DispatchError>)
        ensures
            final(self).config == old(self).config,
            final(tokens).config == old(tokens).config,
            final(sys).block_number == old(sys).block_number,
            match spec_launch_meta(old(self)@, old(self).config, *app_id, *target, *metadata, old(sys).block_number) {
                Err(e) => r == Err::<(), DispatchError>(e) && final(self)@ == old(self)@ && final(tokens)@
                    == old(tokens)@ && final(cur)@ == old(cur)@ && final(sys).events@ == old(sys).events@,
                Ok(m) => match spec_staking(
                    old(tokens)@,
                    old(cur)@,
                    old(tokens).config.social_pool,
                    metadata.challenger,
                    old(self).config.challenge_staking_amount,
                ) {
                    Err(e) => r == Err::<(), DispatchError>(e) && final(self)@ == old(self)@
                        && final(tokens)@ == old(tokens)@ && final(cur)@ == old(cur)@ && final(sys).events@
                        == old(sys).events@,
                    Ok((t, c)) => r is Ok && final(self)@ == after_upload(
                        with_meta(old(self)@, *app_id, *target, m),
                        *app_id,
                        old(sys).block_number,
                    ) && final(tokens)@ == t && final(cur)@ == c && final(sys).events@ == old(
                        sys,
                    ).events@.push(
                        crate::system::RuntimeEvent::Challenges(
                            Event::Challenged(
                                metadata.challenger,
                                *target,
                                metadata.pathfinder,
                                metadata.progress.total,
                            ),
                        ),
                    ),
                },
            },
    {
        let now = sys.block_number();
        let key = AppAccount { app_id: *app_id, account: *target };
        let (old_meta, exists) = match self.metadatas.get(&key) {
            Some(m) => (*m, true),
            None => (Metadata::default(), false),
        };
        if exists && old_meta.status != ChallengeStatus::Free {
            return Err(DispatchError::Challenges(Error::NoChallengeAllowed));
        }
        let amount = self.config.challenge_staking_amount;
        let staking = match old_meta.pool.staking.checked_add(metadata.pool.staking) {
            Some(v) => match v.checked_add(amount) {
                Some(w) => w,
                None => {
                    return Err(DispatchError::Challenges(Error::Overflow));
                },
            },
            None => {
                return Err(DispatchError::Challenges(Error::Overflow));
            },
        };
        let earnings = match old_meta.pool.earnings.checked_add(metadata.pool.earnings) {
            Some(v) => v,
            None => {
                return Err(DispatchError::Challenges(Error::Overflow));
            },
        };
        let challenge = Metadata {
            pool: Pool { staking, earnings },
            progress: Progress { done: 0, total: metadata.progress.total },
            last_update: now,
            status: ChallengeStatus::Examine,
            score: metadata.score,
            remark: metadata.remark,
            pathfinder: metadata.pathfinder,
            challenger: metadata.challenger,
            joint_benefits: old_meta.joint_benefits,
        };
        tokens.staking(cur, &metadata.challenger, &amount)?;
        self.set_metadata(app_id, target, &challenge);
        self.after_upload(app_id, now);
        sys.deposit_event(
            crate::system::RuntimeEvent::Challenges(
                Event::Challenged(metadata.challenger, *target, metadata.pathfinder, metadata.progress.total),
            ),
        );
        Ok(())
    }

    /// The first part of `next`: checks `who` and advances the progress by `count`, without
    /// storing anything.
    pub fn next_begin(&self, app_id: &AppId, who: &AccountId, target: &AccountId, count: &u32) -> (r:
        Result<Metadata, DispatchError>)
        ensures
            r == spec_next_begin(self@, *app_id, *who, *target, *count),
    {
        let mut challenge = self.get_metadata_exist(app_id, target)?;
        if *count > MAX_UPDATE_COUNT {
            return Err(DispatchError::Challenges(Error::TooMany));
        }
        match challenge.status {
            ChallengeStatus::Reply => {
                if !challenge.is_pathfinder(who) {
                    return Err(DispatchError::Challenges(Error::NoPermission));
                }
            },
            _ => {
                if !challenge.is_challenger(who) {
                    return Err(DispatchError::Challenges(Error::NoPermission));
                }
            },
        }
        challenge.next(*count);
        if !challenge.check_progress() {
            return Err(DispatchError::Challenges(Error::ProgressErr));
        }
        Ok(challenge)
    }

    /// The last part of `next`: stores the advanced challenge with `score` and `remark`.
    pub fn next_finish(
        &mut self,
        app_id: &AppId,
        target: &AccountId,
        challenge: &Metadata,
        score: u64,
        remark: u32,
        now: BlockNumber,
    )
        ensures
            final(self).config == old(self).config,
            final(self)@ == spec_next_finish(old(self)@, *app_id, *target, *challenge, score, remark, now),
    {
        let m = Metadata { score, remark, last_update: now, ..*challenge };
        self.set_metadata(app_id, target, &m);
        self.after_upload(app_id, now);
    }

    /// Continues the upload of the challenge against `target` under `app_id` by `count`
    /// items. `up` receives the score, the remark and whether the upload is complete, and
    /// returns the new score and remark; nothing changes when it fails.
    pub fn next<F: Fn(u64, u32, bool) -> Result<(u64, u32), DispatchError>>(
        &mut self,
        app_id: &AppId,
        who: &AccountId,
        target: &AccountId,
        count: &u32,
        up: F,
        now: BlockNumber,
    ) -> (r: Result<(), DispatchError>)
        requires
            forall|a: u64, b: u32, c: bool| #[trigger] up.requires((a, b, c)),
        ensures
            final(self).config == old(self).config,
            match spec_next_begin(old(self)@, *app_id, *who, *target, *count) {
                Err(e) => r == Err::<(), DispatchError>(e) && final(self)@ == old(self)@,
                Ok(m) => {
                    &&& r is Err ==> final(self)@ == old(self)@ && up.ensures(
                        (m.score, m.remark, is_done(m)),
                        Err(r->Err_0),
                    )
                    &&& r is Ok ==> exists|score: u64, remark: u32|
                        #[trigger] up.ensures(
                            (m.score, m.remark, is_done(m)),
                            Ok((score, remark)),
                        ) && final(self)@ == spec_next_finish(
                            old(self)@,
                            *app_id,
                            *target,
                            m,
                            score,
                            remark,
                            now,
                        )
                },
            },
    {
        let challenge = self.next_begin(app_id, who, target, count)?;
        let is_all_done = challenge.is_all_done();
        let res = up(challenge.score, challenge.remark, is_all_done);
        match res {
            Ok((score, remark)) => {
                self.next_finish(app_id, target, &challenge, score, remark, now);
                Ok(())
            },
            Err(e) => Err(e),
        }
    }

    /// Challenges the data under `index`: the pathfinder has to reply.
    pub fn examine(
        &mut self,
        app_id: &AppId,
        who: &AccountId,
        target: &AccountId,
        index: u32,
        now: BlockNumber,
    ) -> (r: Result<(), DispatchError>)
        ensures
            final(self).config == old(self).config,
            match spec_examine(old(self)@, *app_id, *who, *target, index, now) {
                Ok(s) => r is Ok && final(self)@ == s,
                Err(e) => r == Err::<(), DispatchError>(e) && final(self)@ == old(self)@,
            },
    {
        let challenge = self.get_metadata_exist(app_id, target)?;
        if !(challenge.status == ChallengeStatus::Reply && challenge.is_all_done()) {
            return Err(DispatchError::Challenges(Error::NoChallengeAllowed));
        }
        if !challenge.is_challenger(who) {
            return Err(DispatchError::Challenges(Error::NoPermission));
        }
        let m = Metadata { status: ChallengeStatus::Examine, remark: index, last_update: now, ..challenge };
        self.set_metadata(app_id, target, &m);
        self.after_upload(app_id, now);
        Ok(())
    }

    /// The first part of `reply`: checks `who` and the state, and sets the progress to
    /// `count` out of `total`, without storing anything.
    pub fn reply_begin(
        &self,
        app_id: &AppId,
        who: &AccountId,
        target: &AccountId,
        total: u32,
        count: u32,
    ) -> (r: Result<Metadata, DispatchError>)
        ensures
            r == spec_reply_begin(self@, *app_id, *who, *target, total, count),
    {
        let mut challenge = self.get_metadata_exist(app_id, target)?;
        if !challenge.is_pathfinder(who) {
            return Err(DispatchError::Challenges(Error::NoPermission));
        }
        if challenge.status != ChallengeStatus::Examine {
            return Err(DispatchError::Challenges(Error::StatusErr));
        }
        challenge.new_progress(total);
        challenge.next(count);
        if !challenge.check_progress() {
            return Err(DispatchError::Challenges(Error::ProgressErr));
        }
        challenge.status = ChallengeStatus::Reply;
        Ok(challenge)
    }

    /// The last part of `reply`: stores the reply with `score`.
    pub fn reply_finish(
        &mut self,
        app_id: &AppId,
        target: &AccountId,
        challenge: &Metadata,
        score: u64,
        now: BlockNumber,
    )
        ensures
            final(self).config == old(self).config,
            final(self)@ == spec_reply_finish(old(self)@, *app_id, *target, *challenge, score, now),
    {
        let m = Metadata { score, last_update: now, ..*challenge };
        self.set_metadata(app_id, target, &m);
    }

    /// Replies to an examination with `count` out of `total` items. `up` receives whether
    /// the upload is complete, the remark and the score, and returns the new score; nothing
    /// changes when it fails.
    pub fn reply<F: Fn(bool, u32, u64) -> Result<u64, DispatchError>>(
        &mut self,
        app_id: &AppId,
        who: &AccountId,
        target: &AccountId,
        total: u32,
        count: u32,
        up: F,
        now: BlockNumber,
    ) -> (r: Result<(), DispatchError>)
        requires
            forall|a: bool, b: u32, c: u64| #[trigger] up.requires((a, b, c)),
        ensures
            final(self).config == old(self).config,
            match spec_reply_begin(old(self)@, *app_id, *who, *target, total, count) {
                Err(e) => r == Err::<(), DispatchError>(e) && final(self)@ == old(self)@,
                Ok(m) => {
                    &&& r is Err ==> final(self)@ == old(self)@ && up.ensures(
                        (is_done(m), m.remark, m.score),
                        Err(r->Err_0),
                    )
                    &&& r is Ok ==> exists|score: u64|
                        #[trigger] up.ensures(
                            (is_done(m), m.remark, m.score),
                            Ok(score),
                        ) && final(self)@ == spec_reply_finish(old(self)@, *app_id, *target, m, score, now)
                },
            },
    {
        let challenge = self.reply_begin(app_id, who, target, total, count)?;
        let res = up(challenge.is_all_done(), challenge.remark, challenge.score);
        match res {
            Ok(score) => {
                self.reply_finish(app_id, target, &challenge, score, now);
                Ok(())
            },
            Err(e) => Err(e),
        }
    }

    /// The first part of `evidence`: checks `who`, the progress and the state.
    pub fn evidence_begin(&self, app_id: &AppId, who: &AccountId, target: &AccountId) -> (r: Result<
        Metadata,
        DispatchError,
    >)
        ensures
            r == spec_evidence_begin(self@, *app_id, *who, *target),
    {
        let challenge = self.get_metadata_exist(app_id, target)?;
        if !challenge.is_challenger(who) {
            return Err(DispatchError::Challenges(Error::NoPermission));
        }
        if !challenge.is_all_done() {
            return Err(DispatchError::Challenges(Error::ProgressErr));
        }
        if challenge.status == ChallengeStatus::Examine {
            return Err(DispatchError::Challenges(Error::StatusErr));
        }
        Ok(challenge)
    }

    /// The last part of `evidence`: the challenge goes to arbitration, or starts again with
    /// the challenger as pathfinder.
    pub fn evidence_finish(
        &mut self,
        app_id: &AppId,
        target: &AccountId,
        challenge: &Metadata,
        needs_arbitration: bool,
        now: BlockNumber,
    ) -> (r: Option<u64>)
        ensures
            final(self).config == old(self).config,
            final(self)@ == spec_evidence_apply(old(self)@, *app_id, *target, *challenge, needs_arbitration, now),
            r == spec_evidence_score(*challenge, needs_arbitration),
    {
        let mut m = *challenge;
        let score = m.score;
        if needs_arbitration {
            m.set_status(&ChallengeStatus::Arbitral);
        } else {
            m.restart(true);
        }
        self.set_metadata(app_id, target, &m);
        self.after_upload(app_id, now);
        if needs_arbitration {
            None
        } else {
            Some(score)
        }
    }

    /// Submits evidence. `up` receives the remark and the score and says whether the
    /// challenge needs arbitration; otherwise the challenge starts again with the challenger
    /// as pathfinder and the score is handed back.
    pub fn evidence<F: Fn(u32, u64) -> Result<bool, DispatchError>>(
        &mut self,
        app_id: &AppId,
        who: &AccountId,
        target: &AccountId,
        up: F,
        now: BlockNumber,
    ) -> (r: Result<Option<u64>, DispatchError>)
        requires
            forall|a: u32, b: u64| #[trigger] up.requires((a, b)),
        ensures
            final(self).config == old(self).config,
            match spec_evidence_begin(old(self)@, *app_id, *who, *target) {
                Err(e) => r == Err::<Option<u64>, DispatchError>(e) && final(self)@ == old(self)@,
                Ok(m) => {
                    &&& r is Err ==> final(self)@ == old(self)@ && up.ensures((m.remark, m.score), Err(r->Err_0))
                    &&& r is Ok ==> exists|needs: bool|
                        #[trigger] up.ensures((m.remark, m.score), Ok(needs)) && final(self)@
                            == spec_evidence_apply(old(self)@, *app_id, *target, m, needs, now) && r->Ok_0
                            == spec_evidence_score(m, needs)
                },
            },
    {
        let challenge = self.evidence_begin(app_id, who, target)?;
        let res = up(challenge.remark, challenge.score);
        match res {
            Ok(needs) => Ok(self.evidence_finish(app_id, target, &challenge, needs, now)),
            Err(e) => Err(e),
        }
    }

    /// The first part of `arbitral`: checks the state and the progress; a caller other than
    /// the challenger may take over only after the timeout, and then has to stake.
    pub fn arbitral_begin(&self, app_id: &AppId, who: &AccountId, target: &AccountId, now: BlockNumber) -> (r:
        Result<(Metadata, bool), DispatchError>)
        ensures
            r == spec_arbitral_begin(self@, self.config, *app_id, *who, *target, now),
    {
        let challenge = self.get_metadata_exist(app_id, target)?;
        if challenge.status == ChallengeStatus::Examine {
            return Err(DispatchError::Challenges(Error::StatusErr));
        }
        if !challenge.is_all_done() {
            return Err(DispatchError::Challenges(Error::ProgressErr));
        }
        if !challenge.is_challenger(who) {
            if !self.is_challenge_timeout(&challenge.last_update, now) {
                return Err(DispatchError::Challenges(Error::NoPermission));
            }
            return Ok((Metadata { challenger: *who, ..challenge }, true));
        }
        Ok((challenge, false))
    }

    /// Stakes the challenge amount for `who` when `needs_stake`.
    pub fn stake_if(
        &self,
        tokens: &mut crate::tokens::Pallet,
        cur: &mut Currency,
        who: &AccountId,
        needs_stake: bool,
    ) -> (r: Result<(), DispatchError>)
        ensures
            final(tokens).config == old(tokens).config,
            match spec_stake_if(self.config, old(tokens)@, old(cur)@, old(tokens).config.social_pool, *who, needs_stake) {
                Ok((t, c)) => r is Ok && final(tokens)@ == t && final(cur)@ == c,
                Err(e) => r == Err::<(), DispatchError>(e) && final(tokens)@ == old(tokens)@
                    && final(cur)@ == old(cur)@,
            },
    {
        if needs_stake {
            let amount = self.config.challenge_staking_amount;
            tokens.staking(cur, who, &amount)
        } else {
            Ok(())
        }
    }

    /// Settles `challenge`; see `spec_settle`.
    pub fn do_settle(
        tokens: &mut crate::tokens::Pallet,
        cur: &mut Currency,
        challenge: &mut Metadata,
        restart: &bool,
        joint_benefits: &bool,
        score: &u64,
    ) -> (r: Result<(), DispatchError>)
        ensures
            final(tokens).config == old(tokens).config,
            match spec_settle(*old(challenge), old(tokens)@, old(cur)@, old(tokens).config.social_pool, *restart, *joint_benefits, *score) {
                Ok((m, t, c)) => r is Ok && *final(challenge) == m && final(tokens)@ == t && final(cur)@ == c,
                Err(e) => r == Err::<(), DispatchError>(e) && *final(challenge) == *old(challenge)
                    && final(tokens)@ == old(tokens)@ && final(cur)@ == old(cur)@,
            },
    {
        if *restart {
            if *joint_benefits {
                let arbitral_fee = challenge.pool.staking / 2;
                let challenger = challenge.challenger;
                tokens.release(cur, &challenger, &arbitral_fee)?;
                challenge.pool = Pool { staking: challenge.pool.staking - arbitral_fee, ..challenge.pool };
            }
            challenge.restart(!*joint_benefits);
            Ok(())
        } else {
            challenge.joint_benefits = *joint_benefits;
            challenge.score = *score;
            Ok(())
        }
    }

    /// The last part of `arbitral`: settles the challenge and stores it.
    pub fn arbitral_finish(
        &mut self,
        tokens: &mut crate::tokens::Pallet,
        cur: &mut Currency,
        app_id: &AppId,
        target: &AccountId,
        challenge: &Metadata,
        joint_benefits: bool,
        restart: bool,
        score: u64,
        now: BlockNumber,
    ) -> (r: Result<(), DispatchError>)
        ensures
            final(self).config == old(self).config,
            final(tokens).config == old(tokens).config,
            match spec_arbitral_finish(
                old(self)@,
                old(tokens)@,
                old(cur)@,
                old(tokens).config.social_pool,
                *app_id,
                *target,
                *challenge,
                joint_benefits,
                restart,
                score,
                now,
            ) {
                Ok((s, t, c)) => r is Ok && final(self)@ == s && final(tokens)@ == t && final(cur)@ == c,
                Err(e) => r == Err::<(), DispatchError>(e) && final(self)@ == old(self)@
                    && final(tokens)@ == old(tokens)@ && final(cur)@ == old(cur)@,
            },
    {
        let mut m = *challenge;
        Self::do_settle(tokens, cur, &mut m, &restart, &joint_benefits, &score)?;
        m.last_update = now;
        self.set_metadata(app_id, target, &m);
        self.after_upload(app_id, now);
        Ok(())
    }

    /// Arbitration of submitted data. `up` receives the score and the remark and returns
    /// whether the benefits are shared, whether the game starts again, and the score; the
    /// challenge is then settled. A caller other than the challenger takes over after the
    /// timeout and stakes. Nothing changes when any step fails.
    pub fn arbitral<F: Fn(u64, u32) -> Result<(bool, bool, u64), DispatchError>>(
        &mut self,
        tokens: &mut crate::tokens::Pallet,
        cur: &mut Currency,
        app_id: &AppId,
        who: &AccountId,
        target: &AccountId,
        up: F,
        now: BlockNumber,
    ) -> (r: Result<(), DispatchError>)
        requires
            forall|a: u64, b: u32| #[trigger] up.requires((a, b)),
        ensures
            final(self).config == old(self).config,
            final(tokens).config == old(tokens).config,
            r is Err ==> final(self)@ == old(self)@ && final(tokens)@ == old(tokens)@ && final(cur)@ == old(cur)@,
            match spec_arbitral_begin(old(self)@, old(self).config, *app_id, *who, *target, now) {
                Err(e) => r == Err::<(), DispatchError>(e),
                Ok((m, needs_stake)) => match spec_stake_if(
                    old(self).config,
                    old(tokens)@,
                    old(cur)@,
                    old(tokens).config.social_pool,
                    *who,
                    needs_stake,
                ) {
                    Err(e) => r == Err::<(), DispatchError>(e),
                    Ok((t1, c1)) => {
                        &&& r is Err ==> up.ensures((m.score, m.remark), Err(r->Err_0)) || exists|
                            jb: bool,
                            rs: bool,
                            score: u64,
                        |
                            #[trigger] up.ensures((m.score, m.remark), Ok((jb, rs, score)))
                                && spec_arbitral_finish(
                                old(self)@,
                                t1,
                                c1,
                                old(tokens).config.social_pool,
                                *app_id,
                                *target,
                                m,
                                jb,
                                rs,
                                score,
                                now,
                            ) == Err::<(ChallengesModel, TokensModel, CurrencyModel), DispatchError>(r->Err_0)
                        &&& r is Ok ==> exists|jb: bool, rs: bool, score: u64|
                            #[trigger] up.ensures((m.score, m.remark), Ok((jb, rs, score)))
                                && spec_arbitral_finish(
                                old(self)@,
                                t1,
                                c1,
                                old(tokens).config.social_pool,
                                *app_id,
                                *target,
                                m,
                                jb,
                                rs,
                                score,
                                now,
                            ) == Ok::<(ChallengesModel, TokensModel, CurrencyModel), DispatchError>(
                                (final(self)@, final(tokens)@, final(cur)@),
                            )
                    },
                },
            },
    {
        let (challenge, needs_stake) = self.arbitral_begin(app_id, who, target, now)?;
        let saved_tokens = tokens.duplicate();
        let saved_cur = cur.duplicate();
        self.stake_if(tokens, cur, who, needs_stake)?;
        let res = up(challenge.score, challenge.remark);
        match res {
            Ok((jb, rs, score)) => {
                let r = self.arbitral_finish(tokens, cur, app_id, target, &challenge, jb, rs, score, now);
                if r.is_err() {
                    *tokens = saved_tokens;
                    *cur = saved_cur;
                }
                r
            },
            Err(e) => {
                *tokens = saved_tokens;
                *cur = saved_cur;
                Err(e)
            },
        }
    }

    /// Settles the challenge against `target` under `app_id` once its upload is complete.
    /// This is a low level operation.
    pub fn settle(
        &mut self,
        tokens: &mut crate::tokens::Pallet,
        cur: &mut Currency,
        app_id: &AppId,
        target: &AccountId,
        joint_benefits: bool,
        restart: bool,
        score: u64,
        now: BlockNumber,
    ) -> (r: Result<(), DispatchError>)
        ensures
            final(self).config == old(self).config,
            final(tokens).config == old(tokens).config,
            match spec_settle_call(
                old(self)@,
                old(tokens)@,
                old(cur)@,
                old(tokens).config.social_pool,
                *app_id,
                *target,
                joint_benefits,
                restart,
                score,
                now,
            ) {
                Ok((s, t, c)) => r is Ok && final(self)@ == s && final(tokens)@ == t && final(cur)@ == c,
                Err(e) => r == Err::<(), DispatchError>(e) && final(self)@ == old(self)@
                    && final(tokens)@ == old(tokens)@ && final(cur)@ == old(cur)@,
            },
    {
        let mut m = self.get_metadata_exist(app_id, target)?;
        if !m.is_all_done() {
            return Err(DispatchError::Challenges(Error::ProgressErr));
        }
        Self::do_settle(tokens, cur, &mut m, &restart, &joint_benefits, &score)?;
        m.last_update = now;
        self.set_metadata(app_id, target, &m);
        Ok(())
    }
}
} // verus!
