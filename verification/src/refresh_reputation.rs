//! Refreshing reputations, with challenge games to keep the values honest.
//!
//! 1. `start` opens a round of refreshing;
//! 2. `refresh` - a pathfinder stakes and refreshes the reputation of users;
//! 3. `challenge` - a challenger stakes and disputes a wrong reputation;
//! 4. `challenge_update` - the challenger uploads the correct paths, which are not checked;
//!    once all are uploaded the challenge goes to arbitration;
//! 5. `arbitral` - anyone may stake and upload shorter paths or other scores to prove the
//!    data wrong.
use crate::challenges::{
    after_upload, spec_arbitral_begin, spec_arbitral_finish, spec_harvest, spec_is_all_harvest,
    spec_is_timeout, spec_launch_meta, spec_next_begin, spec_next_finish, spec_stake_if, with_meta,
    meta_of, ChallengesModel,
};
use crate::currency::{spec_slash, Currency, CurrencyModel};
use crate::primitives::{
    checked_with_fee, spec_is_allowed_sweeper, spec_with_fee, with_fee, AccountId, Balance,
    BlockNumber, ChallengeStatus, Metadata, Pool, Progress, TIRStep, spec_default_metadata,
};
use crate::reputation::{
    spec_mutate_reputation, spec_refresh_reputation, spec_reputation_new, spec_set_free, with_status,
    OperationStatus, ReputationModel,
};
use crate::perbill::BILLION;
use crate::runtime::{Runtime, RuntimeConfig, RuntimeModel};
use crate::storage::{get_or, AccountPair, AppId, Duplicate, StorageMap};
use crate::system::{ensure_signed, DispatchError, Origin, RuntimeEvent};
use crate::tokens::{spec_release, spec_share, spec_staking, TokensModel};
use crate::trust::{
    spec_computed_path, spec_consistent, spec_counts_ok, spec_remove_all_tmp, spec_trust_old_list, TrustModel,
};
use vstd::prelude::*;

pub mod weights;

verus! {

/// The largest number of users on a path, seed and target included.
pub const MAX_NODE_COUNT: usize = 5;

/// The largest number of refreshes that one pathfinder may have outstanding.
pub const MAX_REFRESH: u32 = 500;

/// The application under which challenges of reputations are kept: `b"repu    "`.
pub open spec fn spec_app_id() -> AppId {
    [114u8, 101u8, 112u8, 117u8, 32u8, 32u8, 32u8, 32u8]
}

/// The application under which challenges of reputations are kept.
pub fn app_id() -> (a: AppId)
    ensures
        a == spec_app_id(),
{
    [114u8, 101u8, 112u8, 117u8, 32u8, 32u8, 32u8, 32u8]
}

/// The record of a refresh of a user's reputation.
#[derive(Clone, Copy, PartialEq, Eq, Structural, Debug)]
pub struct Record {
    /// When the refresh was made.
    pub update_at: BlockNumber,
    /// The fee that the refresh earned.
    pub fee: Balance,
}

impl Duplicate for Record {
    fn duplicate(&self) -> (r: Self) {
        *self
    }
}

/// What a pathfinder is owed.
#[derive(Clone, Copy, PartialEq, Eq, Structural, Debug)]
pub struct Payroll {
    /// How many reputations the pathfinder refreshed.
    pub count: u32,
    /// The fees earned.
    pub total_fee: Balance,
    /// The last refresh.
    pub update_at: BlockNumber,
}

impl Duplicate for Payroll {
    fn duplicate(&self) -> (r: Self) {
        *self
    }
}

/// A record that was never written.
pub open spec fn default_record() -> Record {
    Record { update_at: 0, fee: 0 }
}

/// A payroll that was never written.
pub open spec fn default_payroll() -> Payroll {
    Payroll { count: 0, total_fee: 0, update_at: 0 }
}

/// `a * b`, saturating.
pub open spec fn sat_mul(a: u128, b: u128) -> u128 {
    if a * b > u128::MAX {
        u128::MAX
    } else {
        (a * b) as u128
    }
}

/// `a + b`, saturating.
pub open spec fn sat_add(a: u128, b: u128) -> u128 {
    if a + b > u128::MAX {
        u128::MAX
    } else {
        (a + b) as u128
    }
}

/// `a - b`, saturating.
pub open spec fn sat_sub(a: u128, b: u128) -> u128 {
    if a < b {
        0
    } else {
        (a - b) as u128
    }
}

/// All that is paid to the pathfinder of `p`: the stakes and the fees.
pub open spec fn spec_total_amount(p: Payroll, staking_amount: Balance) -> Balance {
    sat_add(sat_mul(staking_amount, p.count as u128), p.total_fee)
}

/// `a * b`, saturating.
fn saturating_mul(a: u128, b: u128) -> (r: u128)
    ensures
        r == sat_mul(a, b),
{
    match a.checked_mul(b) {
        Some(v) => v,
        None => u128::MAX,
    }
}

impl Payroll {
    /// All that is paid to the pathfinder: `staking_amount` for every refresh, and the fees.
    pub fn total_amount(&self, staking_amount: Balance) -> (r: Balance)
        ensures
            r == spec_total_amount(*self, staking_amount),
    {
        saturating_mul(staking_amount, self.count as u128).saturating_add(self.total_fee)
    }
}

/// A path of trust from a seed to a user.
#[derive(Clone, PartialEq, Eq, Debug)]
pub struct Path {
    /// The users between the seed and the target, both left out.
    pub nodes: Vec<AccountId>,
    /// The score that the target receives from the seed.
    pub score: u32,
}

/// What contracts see of a path.
pub struct PathModel {
    pub nodes: Seq<AccountId>,
    pub score: u32,
}

/// A path that was never written.
pub open spec fn default_path() -> PathModel {
    PathModel { nodes: Seq::empty(), score: 0 }
}

/// Whether a path with `p.nodes` between seed and target is short enough.
pub open spec fn spec_check_nodes_leng(p: PathModel) -> bool {
    p.nodes.len() + 2 <= MAX_NODE_COUNT
}

/// Whether the path is short enough and has a score.
pub open spec fn spec_exclude_zero(p: PathModel) -> bool {
    spec_check_nodes_leng(p) && p.score != 0
}

impl Path {
    /// What contracts see of the path.
    pub open spec fn view(&self) -> PathModel {
        PathModel { nodes: self.nodes@, score: self.score }
    }

    /// A copy of the path.
    pub fn duplicate(&self) -> (p: Path)
        ensures
            p@ == self@,
    {
        let mut v: Vec<AccountId> = Vec::new();
        let mut i: usize = 0;
        while i < self.nodes.len()
            invariant
                0 <= i <= self.nodes@.len(),
                v@ == self.nodes@.subrange(0, i as int),
            decreases self.nodes@.len() - i,
        {
            v.push(self.nodes[i]);
            assert(v@ =~= self.nodes@.subrange(0, i + 1));
            i = i + 1;
        }
        assert(v@ =~= self.nodes@);
        Path { nodes: v, score: self.score }
    }

    /// Whether the path, seed and target included, is not longer than allowed.
    pub fn check_nodes_leng(&self) -> (b: bool)
        ensures
            b == spec_check_nodes_leng(self@),
    {
        self.nodes.len() <= MAX_NODE_COUNT - 2
    }

    /// Whether the path is not too long and its score is not zero.
    pub fn exclude_zero(&self) -> (b: bool)
        ensures
            b == spec_exclude_zero(self@),
    {
        self.check_nodes_leng() && self.score != 0
    }
}

/// The constants of the pallet.
#[derive(Clone, Copy, PartialEq, Eq, Structural, Debug)]
pub struct Config {
    /// The largest number of users that one call may refresh.
    pub max_update_count: u32,
    /// The amount staked for every refresh.
    pub update_staking_amount: Balance,
    /// After this many blocks a refresh is confirmed.
    pub confirmation_period: BlockNumber,
    /// After this many blocks from the start no refresh may be added, so that a round cannot
    /// be dragged out.
    pub ref_repu_timeout: BlockNumber,
}

/// Errors of the pallet.
#[derive(Clone, Copy, PartialEq, Eq, Structural, Debug)]
pub enum Error {
    /// Quantity reaches limit.
    QuantityLimitReached,
    /// Error getting fee.
    ErrorFee,
    /// Challenge timeout.
    ChallengeTimeout,
    /// Calculation overflow.
    Overflow,
    /// Failed to collect as a sweeper.
    FailedSweeper,
    /// The presence of unharvested challenges.
    ChallengeNotClaimed,
    /// The confirmation period since the system was last active has not passed.
    NotInTime,
    /// Excessive number of seeds.
    ExcessiveBumberOfSeeds,
    /// Error getting user reputation.
    ReputationError,
    /// The path already exists.
    PathAlreadyExist,
    /// Wrong path.
    WrongPath,
    /// Error calculating dist.
    DistErr,
    /// The dist is too long or score is too low.
    DistTooLong,
    /// Paths and seeds do not match.
    NotMatch,
    /// Status mismatch.
    StatusErr,
    /// Not yet started.
    NotYetStarted,
    /// Already started.
    AlreadyStarted,
    /// The challenged reputation is the same as the original reputation.
    SameReputation,
    /// Exceeds the allowed refresh time.
    RefreshTiomeOut,
    /// Same path length, but score too low.
    ScoreTooLow,
    /// Exceed the refresh limit.
    ExceedMaxRefresh,
}

/// Events of the pallet.
#[derive(Clone, Copy, PartialEq, Eq, Structural, Debug)]
pub enum Event {
    /// Some reputations have been updated \[pathfinder, count, fee\].
    ReputationRefreshed(AccountId, u32, Balance),
    /// Reputation renewal has begun \[who\].
    Started(AccountId),
    /// Refreshed earnings are harvested \[pathfinder, amount\].
    RefreshedHarvested(AccountId, Balance),
    /// Refreshed earnings are harvested \[pathfinder, sweeper, pathfinder_amount, sweeper_amount\].
    RefreshedHarvestedBySweeper(AccountId, AccountId, Balance, Balance),
    /// Challenge earnings are harvested \[who, target\].
    ChallengeHarvested(AccountId, AccountId),
    /// A new challenge has been launched \[challenger, target\].
    Challenge(AccountId, AccountId),
    /// A new arbitral has been launched \[challenger, target\].
    Arbitral(AccountId, AccountId),
    /// The new path is uploaded \[challenger, target\].
    PathUpdated(AccountId, AccountId),
}

/// What contracts see of the pallet's storage.
#[verifier::ext_equal]
pub struct RefreshModel {
    /// When the current round started, if one is open.
    pub started_at: Option<BlockNumber>,
    /// What each pathfinder is owed.
    pub payrolls: Map<AccountId, Payroll>,
    /// The refreshes of each pathfinder (`first`) for each user (`second`).
    pub records: Map<AccountPair, Record>,
    /// The paths from each seed (`first`) to each user (`second`).
    pub paths: Map<AccountPair, PathModel>,
}

/// The storage of the pallet.
pub struct Pallet {
    pub config: Config,
    pub started_at: Option<BlockNumber>,
    pub payrolls: StorageMap<AccountId, Payroll>,
    pub records: StorageMap<AccountPair, Record>,
    pub paths: StorageMap<AccountPair, Path>,
}

/// The key of the pair (`first`, `second`).
pub open spec fn pair(first: AccountId, second: AccountId) -> AccountPair {
    AccountPair { first, second }
}

/// What `pathfinder` is owed.
pub open spec fn payroll_of(s: RefreshModel, pathfinder: AccountId) -> Payroll {
    get_or(s.payrolls, pathfinder, default_payroll())
}

/// The record of `pathfinder` for `who`.
pub open spec fn record_of(s: RefreshModel, pathfinder: AccountId, who: AccountId) -> Record {
    get_or(s.records, pair(pathfinder, who), default_record())
}

/// The path from `seed` to `target`.
pub open spec fn path_of(s: RefreshModel, seed: AccountId, target: AccountId) -> PathModel {
    get_or(s.paths, pair(seed, target), default_path())
}

/// Succeeds when the system is refreshing reputations.
pub open spec fn spec_check_step(rep: ReputationModel) -> Result<(), DispatchError> {
    if rep.system_info.step == TIRStep::Reputation {
        Ok(())
    } else {
        Err(DispatchError::RefreshReputation(Error::StatusErr))
    }
}

/// Whether a payroll last updated at `update_at` may be harvested at `now`.
pub open spec fn spec_can_harvest(cfg: Config, update_at: BlockNumber, now: BlockNumber) -> bool {
    update_at + cfg.confirmation_period < now
}

/// Whether a refresh may still be added at `now` in the round that started at `started_at`.
pub open spec fn spec_in_time(cfg: Config, started_at: Option<BlockNumber>, now: BlockNumber) -> bool {
    now < get_started(started_at) + cfg.ref_repu_timeout
}

/// The start of the round, or zero.
pub open spec fn get_started(started_at: Option<BlockNumber>) -> BlockNumber {
    match started_at {
        Some(b) => b,
        None => 0,
    }
}

/// The pallet after `pathfinder` is credited `amount` for `count` refreshes at `now`, or the
/// error.
pub open spec fn spec_mutate_payroll(
    s: RefreshModel,
    pathfinder: AccountId,
    amount: Balance,
    count: u32,
    now: BlockNumber,
) -> Result<RefreshModel, DispatchError> {
    let p = payroll_of(s, pathfinder);
    if p.total_fee + amount > u128::MAX || p.count + count > u32::MAX {
        Err(DispatchError::RefreshReputation(Error::Overflow))
    } else {
        Ok(
            RefreshModel {
                payrolls: s.payrolls.insert(
                    pathfinder,
                    Payroll {
                        count: (p.count + count) as u32,
                        total_fee: (p.total_fee + amount) as u128,
                        update_at: now,
                    },
                ),
                ..s
            },
        )
    }
}

/// `m` without the entries whose key starts with `first`.
pub open spec fn spec_remove_prefix(m: Map<AccountPair, Record>, first: AccountId) -> Map<AccountPair, Record> {
    Map::new(|k: AccountPair| m.contains_key(k) && k.first != first, |k: AccountPair| m[k])
}

/// Whether the update ends at `now`: a round is open, the last refresh is confirmed and every
/// challenge of reputations has timed out.
pub open spec fn spec_next_step_fires(
    s: RefreshModel,
    cfg: Config,
    rep: ReputationModel,
    ch: ChallengesModel,
    ch_cfg: crate::challenges::Config,
    now: BlockNumber,
) -> bool {
    &&& s.started_at is Some
    &&& rep.system_info.last + cfg.confirmation_period < now
    &&& spec_is_timeout(ch_cfg, get_or(ch.last_at, spec_app_id(), 0u64), now)
}

/// The runtime after `next_step`: when the update ends, the changes of trust are forgotten,
/// the system becomes free and the round closes.
pub open spec fn spec_next_step(w: RuntimeModel, c: RuntimeConfig) -> RuntimeModel {
    if spec_next_step_fires(
        w.refresh_reputation,
        c.refresh_reputation,
        w.reputation,
        w.challenges,
        c.challenges,
        w.block_number,
    ) {
        RuntimeModel {
            refresh_reputation: RefreshModel { started_at: None, ..w.refresh_reputation },
            trust: spec_remove_all_tmp(w.trust),
            reputation: spec_set_free(w.reputation, w.block_number),
            ..w
        }
    } else {
        w
    }
}

/// The pallet after the payroll and the records of `pathfinder` are removed.
pub open spec fn spec_clear_pathfinder(s: RefreshModel, pathfinder: AccountId) -> RefreshModel {
    RefreshModel {
        payrolls: s.payrolls.remove(pathfinder),
        records: spec_remove_prefix(s.records, pathfinder),
        ..s
    }
}

/// The runtime after the caller of `origin` harvests everything it is owed; or the error.
pub open spec fn spec_harvest_ref_all(w: RuntimeModel, c: RuntimeConfig, origin: Origin) -> Result<
    RuntimeModel,
    DispatchError,
> {
    match origin {
        Origin::Signed(pathfinder) => {
            let p = payroll_of(w.refresh_reputation, pathfinder);
            let total = spec_total_amount(p, c.refresh_reputation.update_staking_amount);
            if !spec_can_harvest(c.refresh_reputation, p.update_at, w.block_number) {
                Err(DispatchError::RefreshReputation(Error::ExcessiveBumberOfSeeds))
            } else {
                match spec_release(w.tokens, w.currency, c.tokens.social_pool, pathfinder, total) {
                    Err(e) => Err(e),
                    Ok((t, cu)) => {
                        let w1 = spec_next_step(w, c);
                        Ok(
                            RuntimeModel {
                                tokens: t,
                                currency: cu,
                                refresh_reputation: spec_clear_pathfinder(w1.refresh_reputation, pathfinder),
                                events: w1.events.push(
                                    RuntimeEvent::RefreshReputation(Event::RefreshedHarvested(pathfinder, total)),
                                ),
                                ..w1
                            },
                        )
                    },
                }
            }
        },
        _ => Err(DispatchError::BadOrigin),
    }
}

/// The runtime after the caller of `origin`, a sweeper, harvests what `pathfinder` is owed and
/// takes a fee; or the error.
pub open spec fn spec_harvest_ref_all_sweeper(
    w: RuntimeModel,
    c: RuntimeConfig,
    origin: Origin,
    pathfinder: AccountId,
) -> Result<RuntimeModel, DispatchError> {
    match origin {
        Origin::Signed(sweeper) => {
            let p = payroll_of(w.refresh_reputation, pathfinder);
            let total = spec_total_amount(p, c.refresh_reputation.update_staking_amount);
            let (fee, without_fee) = spec_with_fee(total);
            let pool = c.tokens.social_pool;
            if !spec_can_harvest(c.refresh_reputation, p.update_at, w.block_number) {
                Err(DispatchError::RefreshReputation(Error::ExcessiveBumberOfSeeds))
            } else if !spec_is_allowed_sweeper(p.update_at, w.block_number) {
                Err(DispatchError::RefreshReputation(Error::FailedSweeper))
            } else {
                match spec_release(w.tokens, w.currency, pool, sweeper, fee) {
                    Err(e) => Err(e),
                    Ok((t1, c1)) => match spec_release(t1, c1, pool, pathfinder, without_fee) {
                        Err(e) => Err(e),
                        Ok((t2, c2)) => {
                            let w1 = spec_next_step(w, c);
                            Ok(
                                RuntimeModel {
                                    tokens: t2,
                                    currency: c2,
                                    refresh_reputation: spec_clear_pathfinder(w1.refresh_reputation, pathfinder),
                                    events: w1.events.push(
                                        RuntimeEvent::RefreshReputation(
                                            Event::RefreshedHarvestedBySweeper(pathfinder, sweeper, without_fee, fee),
                                        ),
                                    ),
                                    ..w1
                                },
                            )
                        },
                    },
                }
            }
        },
        _ => Err(DispatchError::BadOrigin),
    }
}

/// The runtime after the caller of `origin` harvests the challenge against `target`; or the
/// error.
pub open spec fn spec_harvest_challenge(w: RuntimeModel, c: RuntimeConfig, origin: Origin, target: AccountId) -> Result<
    RuntimeModel,
    DispatchError,
> {
    match origin {
        Origin::Signed(who) => match spec_harvest(
            w.challenges,
            c.challenges,
            w.tokens,
            w.currency,
            c.tokens.social_pool,
            who,
            spec_app_id(),
            target,
            w.block_number,
        ) {
            Err(e) => Err(e),
            Ok((ch, t, cu, _score)) => {
                let w1 = spec_next_step(w, c);
                Ok(
                    RuntimeModel {
                        challenges: ch,
                        tokens: t,
                        currency: cu,
                        events: w1.events.push(RuntimeEvent::RefreshReputation(Event::ChallengeHarvested(who, target))),
                        ..w1
                    },
                )
            },
        },
        _ => Err(DispatchError::BadOrigin),
    }
}

/// The challenge that `challenge` launches: the fee of the refresh goes to the pool, and the
/// reputation being disputed is kept as the remark.
pub open spec fn spec_challenge_meta(
    fee: Balance,
    reputation: u32,
    pathfinder: AccountId,
    challenger: AccountId,
    quantity: u32,
) -> Metadata {
    Metadata {
        pool: Pool { staking: 0, earnings: fee },
        remark: reputation,
        pathfinder,
        challenger,
        progress: Progress { total: quantity, done: 0 },
        ..spec_default_metadata()
    }
}

/// `a - b` for 32-bit values, saturating.
pub open spec fn sat_sub_u32(a: u32, b: u32) -> u32 {
    if a < b {
        0
    } else {
        (a - b) as u32
    }
}

/// The runtime after the caller of `origin` challenges the reputation of `target` refreshed
/// by `pathfinder`, claiming that `quantity` paths give the score `score`; or the error.
pub open spec fn spec_challenge(
    w: RuntimeModel,
    c: RuntimeConfig,
    origin: Origin,
    target: AccountId,
    pathfinder: AccountId,
    quantity: u32,
    score: u32,
) -> Result<RuntimeModel, DispatchError> {
    match origin {
        Origin::Signed(challenger) => {
            if spec_check_step(w.reputation) is Err {
                Err(DispatchError::RefreshReputation(Error::StatusErr))
            } else if quantity > (w.seeds.len() as u32) {
                Err(DispatchError::RefreshReputation(Error::ExcessiveBumberOfSeeds))
            } else {
                match spec_reputation_new(w.reputation, target) {
                    None => Err(DispatchError::RefreshReputation(Error::ReputationError)),
                    Some(reputation) => {
                        let record = record_of(w.refresh_reputation, pathfinder, target);
                        let app = spec_app_id();
                        if score == reputation {
                            Err(DispatchError::RefreshReputation(Error::SameReputation))
                        } else if !(record.update_at + c.refresh_reputation.confirmation_period > w.block_number) {
                            Err(DispatchError::RefreshReputation(Error::ChallengeTimeout))
                        } else {
                            let meta = spec_challenge_meta(record.fee, reputation, pathfinder, challenger, quantity);
                            match spec_launch_meta(w.challenges, c.challenges, app, target, meta, w.block_number) {
                                Err(e) => Err(e),
                                Ok(m) => match spec_staking(
                                    w.tokens,
                                    w.currency,
                                    c.tokens.social_pool,
                                    challenger,
                                    c.challenges.challenge_staking_amount,
                                ) {
                                    Err(e) => Err(e),
                                    Ok((t, cu)) => {
                                        let ch1 = after_upload(with_meta(w.challenges, app, target, m), app, w.block_number);
                                        let p = payroll_of(w.refresh_reputation, pathfinder);
                                        Ok(
                                            RuntimeModel {
                                                challenges: with_meta(
                                                    ch1,
                                                    app,
                                                    target,
                                                    Metadata { status: ChallengeStatus::Arbitral, ..m },
                                                ),
                                                tokens: t,
                                                currency: cu,
                                                refresh_reputation: RefreshModel {
                                                    records: w.refresh_reputation.records.remove(pair(pathfinder, target)),
                                                    payrolls: w.refresh_reputation.payrolls.insert(
                                                        pathfinder,
                                                        Payroll {
                                                            total_fee: sat_sub(p.total_fee, record.fee),
                                                            count: sat_sub_u32(p.count, 1),
                                                            ..p
                                                        },
                                                    ),
                                                    ..w.refresh_reputation
                                                },
                                                events: w.events.push(
                                                    RuntimeEvent::Challenges(
                                                        crate::challenges::Event::Challenged(
                                                            challenger,
                                                            target,
                                                            pathfinder,
                                                            quantity,
                                                        ),
                                                    ),
                                                ).push(RuntimeEvent::RefreshReputation(Event::Challenge(challenger, target))),
                                                ..w
                                            },
                                        )
                                    },
                                },
                            }
                        }
                    },
                }
            }
        },
        _ => Err(DispatchError::BadOrigin),
    }
}

/// What contracts see of a list of paths.
pub open spec fn path_models(v: Seq<Path>) -> Seq<PathModel> {
    v.map_values(|p: Path| p@)
}

/// The score after the paths `paths` from `seeds` to `target`, from position `i` on, are
/// added to `acc`; or the error: a path is already stored, too long or without score, or the
/// sum overflows.
pub open spec fn spec_update_fold(
    s: RefreshModel,
    target: AccountId,
    seeds: Seq<AccountId>,
    paths: Seq<PathModel>,
    i: int,
    acc: u32,
) -> Result<u32, DispatchError>
    decreases seeds.len() - i,
{
    if i < 0 || i >= seeds.len() || i >= paths.len() {
        Ok(acc)
    } else if s.paths.contains_key(pair(seeds[i], target)) {
        Err(DispatchError::RefreshReputation(Error::PathAlreadyExist))
    } else if !spec_exclude_zero(paths[i]) {
        Err(DispatchError::RefreshReputation(Error::WrongPath))
    } else if acc + paths[i].score > u32::MAX {
        Err(DispatchError::RefreshReputation(Error::Overflow))
    } else {
        spec_update_fold(s, target, seeds, paths, i + 1, (acc + paths[i].score) as u32)
    }
}

/// The paths after the first `n` of `paths` are stored from `seeds` to `target`.
pub open spec fn spec_insert_paths(
    m: Map<AccountPair, PathModel>,
    target: AccountId,
    seeds: Seq<AccountId>,
    paths: Seq<PathModel>,
    n: int,
) -> Map<AccountPair, PathModel>
    decreases n,
{
    if n <= 0 {
        m
    } else {
        spec_insert_paths(m, target, seeds, paths, n - 1).insert(pair(seeds[n - 1], target), paths[n - 1])
    }
}

/// The paths after the first `n` of `paths` replace those from `seeds` to `target`; a path
/// without score removes the stored one.
pub open spec fn spec_put_paths(
    m: Map<AccountPair, PathModel>,
    target: AccountId,
    seeds: Seq<AccountId>,
    paths: Seq<PathModel>,
    n: int,
) -> Map<AccountPair, PathModel>
    decreases n,
{
    if n <= 0 {
        m
    } else if paths[n - 1].score == 0 {
        spec_put_paths(m, target, seeds, paths, n - 1).remove(pair(seeds[n - 1], target))
    } else {
        spec_put_paths(m, target, seeds, paths, n - 1).insert(pair(seeds[n - 1], target), paths[n - 1])
    }
}

/// The runtime after the challenger of `origin` uploads `paths` from `seeds` to `target`;
/// once the upload is complete, the sum becomes the reputation of `target`. Or the error.
pub open spec fn spec_challenge_update(
    w: RuntimeModel,
    c: RuntimeConfig,
    origin: Origin,
    target: AccountId,
    seeds: Seq<AccountId>,
    paths: Seq<PathModel>,
) -> Result<RuntimeModel, DispatchError> {
    match origin {
        Origin::Signed(challenger) => {
            let app = spec_app_id();
            if spec_check_step(w.reputation) is Err {
                Err(DispatchError::RefreshReputation(Error::StatusErr))
            } else if seeds.len() != paths.len() {
                Err(DispatchError::RefreshReputation(Error::NotMatch))
            } else {
                match spec_next_begin(w.challenges, app, challenger, target, seeds.len() as u32) {
                    Err(e) => Err(e),
                    Ok(m) => match spec_update_fold(w.refresh_reputation, target, seeds, paths, 0, m.score as u32) {
                        Err(e) => Err(e),
                        Ok(new_score) => Ok(
                            RuntimeModel {
                                challenges: spec_next_finish(
                                    w.challenges,
                                    app,
                                    target,
                                    m,
                                    new_score as u64,
                                    m.remark,
                                    w.block_number,
                                ),
                                refresh_reputation: RefreshModel {
                                    paths: spec_insert_paths(
                                        w.refresh_reputation.paths,
                                        target,
                                        seeds,
                                        paths,
                                        seeds.len() as int,
                                    ),
                                    ..w.refresh_reputation
                                },
                                reputation: if crate::challenges::is_done(m) {
                                    spec_mutate_reputation(w.reputation, target, new_score)
                                } else {
                                    w.reputation
                                },
                                events: w.events.push(RuntimeEvent::RefreshReputation(Event::PathUpdated(challenger, target))),
                                ..w
                            },
                        ),
                    },
                }
            }
        },
        _ => Err(DispatchError::BadOrigin),
    }
}

/// The distance of `path` from `seed` to `target`, when the path is short enough, is a path of
/// trust from a seed and passes exactly its score.
pub open spec fn spec_get_dist(
    tr: TrustModel,
    seeds: Seq<AccountId>,
    rep: ReputationModel,
    damping: u32,
    path: PathModel,
    seed: AccountId,
    target: AccountId,
) -> Option<u32> {
    if spec_check_nodes_leng(path) {
        match spec_computed_path(tr, seeds, rep, damping, seq![seed] + path.nodes + seq![target]) {
            Ok((dist, score)) => if score == path.score {
                Some(dist)
            } else {
                None
            },
            Err(_) => None,
        }
    } else {
        None
    }
}

/// The score after the paths `paths` from `seeds` to `target`, from position `i` on, replace
/// the stored ones in `acc`; or the error: a path is wrong, or not shorter than the stored one,
/// or as long with a score that is not lower, or the score overflows.
pub open spec fn spec_verify_fold(
    s: RefreshModel,
    tr: TrustModel,
    seed_set: Seq<AccountId>,
    rep: ReputationModel,
    damping: u32,
    target: AccountId,
    seeds: Seq<AccountId>,
    paths: Seq<PathModel>,
    i: int,
    acc: u32,
) -> Result<u32, DispatchError>
    decreases seeds.len() - i,
{
    if i < 0 || i >= seeds.len() || i >= paths.len() {
        Ok(acc)
    } else {
        let seed = seeds[i];
        let path = paths[i];
        match spec_get_dist(tr, seed_set, rep, damping, path, seed, target) {
            None => Err(DispatchError::RefreshReputation(Error::DistErr)),
            Some(dist_new) => {
                let old_path = path_of(s, seed, target);
                let old = spec_get_dist(tr, seed_set, rep, damping, old_path, seed, target);
                if old is Some && old->0 < dist_new {
                    Err(DispatchError::RefreshReputation(Error::DistTooLong))
                } else if old is Some && old->0 == dist_new && !(old_path.score > path.score) {
                    Err(DispatchError::RefreshReputation(Error::ScoreTooLow))
                } else if acc < old_path.score || acc - old_path.score + path.score > u32::MAX {
                    Err(DispatchError::RefreshReputation(Error::Overflow))
                } else {
                    spec_verify_fold(
                        s,
                        tr,
                        seed_set,
                        rep,
                        damping,
                        target,
                        seeds,
                        paths,
                        i + 1,
                        (acc - old_path.score + path.score) as u32,
                    )
                }
            },
        }
    }
}

/// The runtime after the caller of `origin` arbitrates the challenge against `target` with
/// the paths `paths` from `seeds`: the corrected score becomes the reputation of `target`.
/// Or the error.
pub open spec fn spec_arbitral(
    w: RuntimeModel,
    c: RuntimeConfig,
    origin: Origin,
    target: AccountId,
    seeds: Seq<AccountId>,
    paths: Seq<PathModel>,
) -> Result<RuntimeModel, DispatchError> {
    match origin {
        Origin::Signed(who) => {
            let app = spec_app_id();
            let pool = c.tokens.social_pool;
            if spec_check_step(w.reputation) is Err {
                Err(DispatchError::RefreshReputation(Error::StatusErr))
            } else if seeds.len() != paths.len() {
                Err(DispatchError::RefreshReputation(Error::NotMatch))
            } else {
                match spec_arbitral_begin(w.challenges, c.challenges, app, who, target, w.block_number) {
                    Err(e) => Err(e),
                    Ok((m, needs_stake)) => match spec_stake_if(c.challenges, w.tokens, w.currency, pool, who, needs_stake) {
                        Err(e) => Err(e),
                        Ok((t1, c1)) => match spec_verify_fold(
                            w.refresh_reputation,
                            w.trust,
                            w.seeds,
                            w.reputation,
                            c.trust.damping_factor.parts,
                            target,
                            seeds,
                            paths,
                            0,
                            m.score as u32,
                        ) {
                            Err(e) => Err(e),
                            Ok(new_score) => match spec_arbitral_finish(
                                w.challenges,
                                t1,
                                c1,
                                pool,
                                app,
                                target,
                                m,
                                new_score == m.remark,
                                false,
                                new_score as u64,
                                w.block_number,
                            ) {
                                Err(e) => Err(e),
                                Ok((ch, t2, c2)) => Ok(
                                    RuntimeModel {
                                        challenges: ch,
                                        tokens: t2,
                                        currency: c2,
                                        reputation: spec_mutate_reputation(w.reputation, target, new_score),
                                        refresh_reputation: RefreshModel {
                                            paths: spec_put_paths(
                                                w.refresh_reputation.paths,
                                                target,
                                                seeds,
                                                paths,
                                                seeds.len() as int,
                                            ),
                                            ..w.refresh_reputation
                                        },
                                        events: w.events.push(RuntimeEvent::RefreshReputation(Event::Arbitral(who, target))),
                                        ..w
                                    },
                                ),
                            },
                        },
                    },
                }
            }
        },
        _ => Err(DispatchError::BadOrigin),
    }
}

/// The token pallet, the ledger and the sweeper's fees after the payrolls `ps`, from position
/// `i` on, are paid out to their pathfinders less the sweeper's fee, which is added to `acc`;
/// or the error.
pub open spec fn spec_start_fold(
    t: TokensModel,
    c: CurrencyModel,
    pool: AccountId,
    staking_amount: Balance,
    ps: Seq<(AccountId, Payroll)>,
    i: int,
    acc: u128,
) -> Result<(TokensModel, CurrencyModel, u128), DispatchError>
    decreases ps.len() - i,
{
    if i < 0 || i >= ps.len() {
        Ok((t, c, acc))
    } else {
        let (pathfinder, p) = ps[i];
        let (fee, without_fee) = spec_with_fee(spec_total_amount(p, staking_amount));
        match spec_release(t, c, pool, pathfinder, without_fee) {
            Err(e) => Err(e),
            Ok((t2, c2)) => if acc + fee > u128::MAX {
                Err(DispatchError::RefreshReputation(Error::Overflow))
            } else {
                spec_start_fold(t2, c2, pool, staking_amount, ps, i + 1, (acc + fee) as u128)
            },
        }
    }
}

/// Whether a round may open: the confirmation period must have passed since the system was
/// last active (`last + confirmation_period < now`), so that the seeds selected before are
/// confirmed. This is the minimum interval before a round opens.
pub open spec fn spec_start_in_time(w: RuntimeModel, c: RuntimeConfig) -> bool {
    w.reputation.system_info.last + c.refresh_reputation.confirmation_period < w.block_number
}

/// The runtime after the caller of `origin` opens a round; the payrolls left over, `ps` in the
/// order in which they are stored, are paid out and the caller receives the sweeper's fees.
/// Or the error.
pub open spec fn spec_start(w: RuntimeModel, c: RuntimeConfig, origin: Origin, ps: Seq<(AccountId, Payroll)>) -> Result<
    RuntimeModel,
    DispatchError,
> {
    match origin {
        Origin::Signed(who) => {
            let pool = c.tokens.social_pool;
            if spec_check_step(w.reputation) is Err {
                Err(DispatchError::RefreshReputation(Error::StatusErr))
            } else if w.refresh_reputation.started_at is Some {
                Err(DispatchError::RefreshReputation(Error::AlreadyStarted))
            } else if !spec_is_all_harvest(w.challenges, spec_app_id()) {
                Err(DispatchError::RefreshReputation(Error::ChallengeNotClaimed))
            } else if !spec_start_in_time(w, c) {
                Err(DispatchError::RefreshReputation(Error::NotInTime))
            } else {
                match spec_start_fold(
                    w.tokens,
                    w.currency,
                    pool,
                    c.refresh_reputation.update_staking_amount,
                    ps,
                    0,
                    0,
                ) {
                    Err(e) => Err(e),
                    Ok((t, cu, total_fee)) => match spec_release(t, cu, pool, who, total_fee) {
                        Err(e) => Err(e),
                        Ok((t2, c2)) => Ok(
                            RuntimeModel {
                                tokens: t2,
                                currency: c2,
                                refresh_reputation: RefreshModel {
                                    started_at: Some(w.block_number),
                                    payrolls: Map::empty(),
                                    ..w.refresh_reputation
                                },
                                events: w.events.push(RuntimeEvent::RefreshReputation(Event::Started(who))),
                                ..w
                            },
                        ),
                    },
                }
            }
        },
        _ => Err(DispatchError::BadOrigin),
    }
}

/// `a + b` for 32-bit values, saturating.
pub open spec fn sat_add_u32(a: u32, b: u32) -> u32 {
    if a + b > u32::MAX {
        u32::MAX
    } else {
        (a + b) as u32
    }
}

/// The reputation pallet, the token pallet, the ledger, the records and the fees after
/// `pathfinder` refreshes the users of `users` from position `i` on, at `now`: each reputation
/// is set once in the round, the user's social balance is shared among the users it trusted
/// when the update started, and the fee is recorded and added to `acc`. Or the error.
pub open spec fn spec_refresh_fold(
    rep: ReputationModel,
    t: TokensModel,
    c: CurrencyModel,
    recs: Map<AccountPair, Record>,
    tr: TrustModel,
    pool: AccountId,
    pathfinder: AccountId,
    users: Seq<(AccountId, u32)>,
    now: BlockNumber,
    i: int,
    acc: u128,
) -> Result<(ReputationModel, TokensModel, CurrencyModel, Map<AccountPair, Record>, u128), DispatchError>
    decreases users.len() - i,
{
    if i < 0 || i >= users.len() {
        Ok((rep, t, c, recs, acc))
    } else {
        let (who, score) = users[i];
        match spec_refresh_reputation(rep, who, score) {
            Err(e) => Err(e),
            Ok(rep2) => {
                let (t2, fee, burn) = spec_share(t, who, spec_trust_old_list(tr, who));
                let c2 = spec_slash(c, pool, burn).0;
                let recs2 = recs.insert(pair(pathfinder, who), Record { update_at: now, fee });
                if acc + fee > u128::MAX {
                    Err(DispatchError::RefreshReputation(Error::Overflow))
                } else {
                    spec_refresh_fold(rep2, t2, c2, recs2, tr, pool, pathfinder, users, now, i + 1, (acc + fee) as u128)
                }
            },
        }
    }
}

/// The runtime after the pathfinder of `origin` stakes and refreshes the reputations of
/// `users`; or the error.
pub open spec fn spec_refresh(w: RuntimeModel, c: RuntimeConfig, origin: Origin, users: Seq<(AccountId, u32)>) -> Result<
    RuntimeModel,
    DispatchError,
> {
    match origin {
        Origin::Signed(pathfinder) => {
            let count = users.len() as u32;
            let now = w.block_number;
            let pool = c.tokens.social_pool;
            let staking = c.refresh_reputation.update_staking_amount;
            if count > c.refresh_reputation.max_update_count {
                Err(DispatchError::RefreshReputation(Error::QuantityLimitReached))
            } else if spec_check_step(w.reputation) is Err {
                Err(DispatchError::RefreshReputation(Error::StatusErr))
            } else if w.refresh_reputation.started_at is None {
                Err(DispatchError::RefreshReputation(Error::NotYetStarted))
            } else if !spec_in_time(c.refresh_reputation, w.refresh_reputation.started_at, now) {
                Err(DispatchError::RefreshReputation(Error::RefreshTiomeOut))
            } else if !(sat_add_u32(payroll_of(w.refresh_reputation, pathfinder).count, count) < MAX_REFRESH) {
                Err(DispatchError::RefreshReputation(Error::ExceedMaxRefresh))
            } else if staking * users.len() > u128::MAX {
                Err(DispatchError::RefreshReputation(Error::Overflow))
            } else {
                match spec_staking(w.tokens, w.currency, pool, pathfinder, (staking * users.len()) as u128) {
                    Err(e) => Err(e),
                    Ok((t1, c1)) => match spec_refresh_fold(
                        w.reputation,
                        t1,
                        c1,
                        w.refresh_reputation.records,
                        w.trust,
                        pool,
                        pathfinder,
                        users,
                        now,
                        0,
                        0,
                    ) {
                        Err(e) => Err(e),
                        Ok((rep, t, cu, recs, total_fee)) => match spec_mutate_payroll(
                            RefreshModel { records: recs, ..w.refresh_reputation },
                            pathfinder,
                            total_fee,
                            count,
                            now,
                        ) {
                            Err(e) => Err(e),
                            Ok(s) => Ok(
                                RuntimeModel {
                                    reputation: with_status(rep, OperationStatus { last: now, ..rep.system_info }),
                                    tokens: t,
                                    currency: cu,
                                    refresh_reputation: s,
                                    events: w.events.push(
                                        RuntimeEvent::RefreshReputation(
                                            Event::ReputationRefreshed(pathfinder, count, total_fee),
                                        ),
                                    ),
                                    ..w
                                },
                            ),
                        },
                    },
                }
            }
        },
        _ => Err(DispatchError::BadOrigin),
    }
}

/// A round that is open cannot be opened again.
pub proof fn law_start_twice(
    w: RuntimeModel,
    c: RuntimeConfig,
    origin: Origin,
    ps: Seq<(AccountId, Payroll)>,
    who: AccountId,
    ps2: Seq<(AccountId, Payroll)>,
)
    requires
        spec_start(w, c, origin, ps) is Ok,
    ensures
        spec_start(spec_start(w, c, origin, ps)->Ok_0, c, Origin::Signed(who), ps2) == Err::<RuntimeModel, DispatchError>(
            DispatchError::RefreshReputation(Error::AlreadyStarted),
        ),
{
}

/// A challenge moves the fee of the disputed refresh from the pathfinder's payroll into the
/// pool of the challenge, removes the record, and sends the challenge to arbitration.
pub proof fn law_challenge_moves_the_fee(
    w: RuntimeModel,
    c: RuntimeConfig,
    challenger: AccountId,
    target: AccountId,
    pathfinder: AccountId,
    quantity: u32,
    score: u32,
)
    requires
        spec_challenge(w, c, Origin::Signed(challenger), target, pathfinder, quantity, score) is Ok,
    ensures
        ({
            let w2 = spec_challenge(w, c, Origin::Signed(challenger), target, pathfinder, quantity, score)->Ok_0;
            let fee = record_of(w.refresh_reputation, pathfinder, target).fee;
            let m = meta_of(w2.challenges, spec_app_id(), target);
            &&& m.pool.earnings == meta_of(w.challenges, spec_app_id(), target).pool.earnings + fee
            &&& m.status == ChallengeStatus::Arbitral
            &&& m.challenger == challenger
            &&& m.pathfinder == pathfinder
            &&& payroll_of(w2.refresh_reputation, pathfinder).total_fee == sat_sub(
                payroll_of(w.refresh_reputation, pathfinder).total_fee,
                fee,
            )
            &&& !w2.refresh_reputation.records.contains_key(pair(pathfinder, target))
        }),
{
}

/// Once a pathfinder has harvested, it is owed nothing and none of its records remain.
pub proof fn law_harvest_ref_all_clears(w: RuntimeModel, c: RuntimeConfig, pathfinder: AccountId)
    requires
        spec_harvest_ref_all(w, c, Origin::Signed(pathfinder)) is Ok,
    ensures
        ({
            let w2 = spec_harvest_ref_all(w, c, Origin::Signed(pathfinder))->Ok_0;
            &&& payroll_of(w2.refresh_reputation, pathfinder) == default_payroll()
            &&& forall|who: AccountId| !w2.refresh_reputation.records.contains_key(#[trigger] pair(pathfinder, who))
        }),
{
}

/// When the last paths of a challenge are uploaded, the sum of the scores becomes the
/// reputation that the round gives back for `target`, when `target` was refreshed in it.
pub proof fn law_challenge_update_sets_reputation(
    w: RuntimeModel,
    c: RuntimeConfig,
    challenger: AccountId,
    target: AccountId,
    seeds: Seq<AccountId>,
    paths: Seq<PathModel>,
)
    requires
        spec_challenge_update(w, c, Origin::Signed(challenger), target, seeds, paths) is Ok,
        crate::challenges::is_done(
            spec_next_begin(w.challenges, spec_app_id(), challenger, target, seeds.len() as u32)->Ok_0,
        ),
        crate::reputation::latest_of(w.reputation, target).nonce == w.reputation.system_info.nonce,
    ensures
        ({
            let m = spec_next_begin(w.challenges, spec_app_id(), challenger, target, seeds.len() as u32)->Ok_0;
            let new_score = spec_update_fold(w.refresh_reputation, target, seeds, paths, 0, m.score as u32)->Ok_0;
            spec_reputation_new(
                spec_challenge_update(w, c, Origin::Signed(challenger), target, seeds, paths)->Ok_0.reputation,
                target,
            ) == Some(new_score)
        }),
{
}

/// An arbitration that passes sets the corrected sum as the reputation that the round gives
/// back for `target`, when `target` was refreshed in it.
pub proof fn law_arbitral_sets_reputation(
    w: RuntimeModel,
    c: RuntimeConfig,
    who: AccountId,
    target: AccountId,
    seeds: Seq<AccountId>,
    paths: Seq<PathModel>,
)
    requires
        spec_arbitral(w, c, Origin::Signed(who), target, seeds, paths) is Ok,
        crate::reputation::latest_of(w.reputation, target).nonce == w.reputation.system_info.nonce,
    ensures
        ({
            let m = spec_arbitral_begin(w.challenges, c.challenges, spec_app_id(), who, target, w.block_number)->Ok_0.0;
            let new_score = spec_verify_fold(
                w.refresh_reputation,
                w.trust,
                w.seeds,
                w.reputation,
                c.trust.damping_factor.parts,
                target,
                seeds,
                paths,
                0,
                m.score as u32,
            )->Ok_0;
            spec_reputation_new(spec_arbitral(w, c, Origin::Signed(who), target, seeds, paths)->Ok_0.reputation, target)
                == Some(new_score)
        }),
{
}

/// Whether the stored path from `seed` to `target` is strictly shorter than `path`.
pub open spec fn stored_path_shorter(
    s: RefreshModel,
    tr: TrustModel,
    seed_set: Seq<AccountId>,
    rep: ReputationModel,
    damping: u32,
    target: AccountId,
    seed: AccountId,
    path: PathModel,
) -> bool {
    let new = spec_get_dist(tr, seed_set, rep, damping, path, seed, target);
    let old = spec_get_dist(tr, seed_set, rep, damping, path_of(s, seed, target), seed, target);
    new is Some && old is Some && old->0 < new->0
}

/// Whether the stored path from `seed` to `target` is as long as `path` and its score is not
/// higher.
pub open spec fn stored_path_not_better(
    s: RefreshModel,
    tr: TrustModel,
    seed_set: Seq<AccountId>,
    rep: ReputationModel,
    damping: u32,
    target: AccountId,
    seed: AccountId,
    path: PathModel,
) -> bool {
    let new = spec_get_dist(tr, seed_set, rep, damping, path, seed, target);
    let old = spec_get_dist(tr, seed_set, rep, damping, path_of(s, seed, target), seed, target);
    new is Some && old is Some && old->0 == new->0 && path_of(s, seed, target).score <= path.score
}

/// The check of an arbitration refuses a path as too long only when the stored path from the
/// same seed is strictly shorter, and refuses its score only when the stored path is as long
/// with a score that is not higher: a path as long as the stored one with a lower score is
/// refused for neither reason.
pub proof fn law_verify_refuses_only_longer_paths(
    s: RefreshModel,
    tr: TrustModel,
    seed_set: Seq<AccountId>,
    rep: ReputationModel,
    damping: u32,
    target: AccountId,
    seeds: Seq<AccountId>,
    paths: Seq<PathModel>,
    i: int,
    acc: u32,
)
    requires
        0 <= i,
    ensures
        spec_verify_fold(s, tr, seed_set, rep, damping, target, seeds, paths, i, acc) == Err::<u32, DispatchError>(
            DispatchError::RefreshReputation(Error::DistTooLong),
        ) ==> exists|j: int|
            i <= j < seeds.len() && j < paths.len() && #[trigger] stored_path_shorter(
                s,
                tr,
                seed_set,
                rep,
                damping,
                target,
                seeds[j],
                paths[j],
            ),
        spec_verify_fold(s, tr, seed_set, rep, damping, target, seeds, paths, i, acc) == Err::<u32, DispatchError>(
            DispatchError::RefreshReputation(Error::ScoreTooLow),
        ) ==> exists|j: int|
            i <= j < seeds.len() && j < paths.len() && #[trigger] stored_path_not_better(
                s,
                tr,
                seed_set,
                rep,
                damping,
                target,
                seeds[j],
                paths[j],
            ),
    decreases seeds.len() - i,
{
    if i < seeds.len() && i < paths.len() {
        let seed = seeds[i];
        let path = paths[i];
        let new = spec_get_dist(tr, seed_set, rep, damping, path, seed, target);
        let old_path = path_of(s, seed, target);
        if new is Some {
            let old = spec_get_dist(tr, seed_set, rep, damping, old_path, seed, target);
            if old is Some && old->0 < new->0 {
                assert(stored_path_shorter(s, tr, seed_set, rep, damping, target, seeds[i], paths[i]));
            } else if old is Some && old->0 == new->0 && !(old_path.score > path.score) {
                assert(stored_path_not_better(s, tr, seed_set, rep, damping, target, seeds[i], paths[i]));
            } else if acc < old_path.score || acc - old_path.score + path.score > u32::MAX {
            } else {
                let acc2 = (acc - old_path.score + path.score) as u32;
                law_verify_refuses_only_longer_paths(s, tr, seed_set, rep, damping, target, seeds, paths, i + 1, acc2);
                if spec_verify_fold(s, tr, seed_set, rep, damping, target, seeds, paths, i + 1, acc2) == Err::<
                    u32,
                    DispatchError,
                >(DispatchError::RefreshReputation(Error::DistTooLong)) {
                    let j = choose|j: int|
                        i + 1 <= j < seeds.len() && j < paths.len() && #[trigger] stored_path_shorter(
                            s,
                            tr,
                            seed_set,
                            rep,
                            damping,
                            target,
                            seeds[j],
                            paths[j],
                        );
                    assert(i <= j);
                }
                if spec_verify_fold(s, tr, seed_set, rep, damping, target, seeds, paths, i + 1, acc2) == Err::<
                    u32,
                    DispatchError,
                >(DispatchError::RefreshReputation(Error::ScoreTooLow)) {
                    let j = choose|j: int|
                        i + 1 <= j < seeds.len() && j < paths.len() && #[trigger] stored_path_not_better(
                            s,
                            tr,
                            seed_set,
                            rep,
                            damping,
                            target,
                            seeds[j],
                            paths[j],
                        );
                    assert(i <= j);
                }
            }
        }
    }
}

/// While the upload of a challenge is incomplete, uploading paths leaves every reputation as
/// it was; only the upload that completes it sets the reputation of the target.
pub proof fn law_challenge_update_incomplete_keeps_reputation(
    w: RuntimeModel,
    c: RuntimeConfig,
    origin: Origin,
    target: AccountId,
    seeds: Seq<AccountId>,
    paths: Seq<PathModel>,
)
    requires
        spec_challenge_update(w, c, origin, target, seeds, paths) is Ok,
        ({
            let m2 = meta_of(spec_challenge_update(w, c, origin, target, seeds, paths)->Ok_0.challenges, spec_app_id(), target);
            m2.progress.done < m2.progress.total
        }),
    ensures
        spec_challenge_update(w, c, origin, target, seeds, paths)->Ok_0.reputation == w.reputation,
{
}

/// The tokens of `pathfinder` are untouched by the shares of a refresh of other users.
proof fn lemma_refresh_fold_keeps_pathfinder(
    rep: ReputationModel,
    t: TokensModel,
    c: CurrencyModel,
    recs: Map<AccountPair, Record>,
    tr: TrustModel,
    pool: AccountId,
    pathfinder: AccountId,
    users: Seq<(AccountId, u32)>,
    now: BlockNumber,
    i: int,
    acc: u128,
)
    requires
        0 <= i,
        pathfinder != pool,
        forall|j: int| i <= j < users.len() ==> (#[trigger] users[j]).0 != pathfinder,
        spec_refresh_fold(rep, t, c, recs, tr, pool, pathfinder, users, now, i, acc) is Ok,
    ensures
        ({
            let r = spec_refresh_fold(rep, t, c, recs, tr, pool, pathfinder, users, now, i, acc)->Ok_0;
            &&& crate::tokens::account_of(r.1, pathfinder).pending == crate::tokens::account_of(t, pathfinder).pending
            &&& crate::currency::free_of(r.2, pathfinder) == crate::currency::free_of(c, pathfinder)
        }),
    decreases users.len() - i,
{
    if i < users.len() {
        let (who, score) = users[i];
        assert(users[i].0 != pathfinder);
        let rep2 = spec_refresh_reputation(rep, who, score)->Ok_0;
        let (t2, fee, burn) = spec_share(t, who, spec_trust_old_list(tr, who));
        let c2 = spec_slash(c, pool, burn).0;
        let recs2 = recs.insert(pair(pathfinder, who), Record { update_at: now, fee });
        assert(crate::tokens::account_of(t2, pathfinder).pending == crate::tokens::account_of(t, pathfinder).pending);
        assert(crate::currency::free_of(c2, pathfinder) == crate::currency::free_of(c, pathfinder));
        lemma_refresh_fold_keeps_pathfinder(rep2, t2, c2, recs2, tr, pool, pathfinder, users, now, i + 1, (acc + fee) as u128);
    }
}

/// A refresh of `n` users takes exactly `n` times the update staking amount from the
/// pathfinder (its pending balance first, then its free balance), and adds `n` refreshes to
/// its payroll: what is staked is the staking amount times the refreshes the payroll counts.
pub proof fn law_refresh_stakes_per_user(
    w: RuntimeModel,
    c: RuntimeConfig,
    pathfinder: AccountId,
    users: Seq<(AccountId, u32)>,
)
    requires
        spec_refresh(w, c, Origin::Signed(pathfinder), users) is Ok,
        pathfinder != c.tokens.social_pool,
        forall|j: int| 0 <= j < users.len() ==> (#[trigger] users[j]).0 != pathfinder,
        users.len() <= u32::MAX,
    ensures
        ({
            let w2 = spec_refresh(w, c, Origin::Signed(pathfinder), users)->Ok_0;
            &&& crate::currency::free_of(w2.currency, pathfinder) + crate::tokens::account_of(w2.tokens, pathfinder).pending
                + c.refresh_reputation.update_staking_amount * users.len() == crate::currency::free_of(
                w.currency,
                pathfinder,
            ) + crate::tokens::account_of(w.tokens, pathfinder).pending
            &&& payroll_of(w2.refresh_reputation, pathfinder).count == payroll_of(w.refresh_reputation, pathfinder).count
                + users.len()
        }),
{
    let pool = c.tokens.social_pool;
    let amount = (c.refresh_reputation.update_staking_amount * users.len()) as u128;
    let (t1, c1) = spec_staking(w.tokens, w.currency, pool, pathfinder, amount)->Ok_0;
    assert(crate::currency::free_of(c1, pathfinder) + crate::tokens::account_of(t1, pathfinder).pending + amount
        == crate::currency::free_of(w.currency, pathfinder) + crate::tokens::account_of(w.tokens, pathfinder).pending);
    lemma_refresh_fold_keeps_pathfinder(
        w.reputation,
        t1,
        c1,
        w.refresh_reputation.records,
        w.trust,
        pool,
        pathfinder,
        users,
        w.block_number,
        0,
        0,
    );
    let r = spec_refresh_fold(
        w.reputation,
        t1,
        c1,
        w.refresh_reputation.records,
        w.trust,
        pool,
        pathfinder,
        users,
        w.block_number,
        0,
        0,
    )->Ok_0;
    let w2 = spec_refresh(w, c, Origin::Signed(pathfinder), users)->Ok_0;
    assert(w2.tokens == r.1);
    assert(w2.currency == r.2);
}

/// When the update ends, the system is free, the round is closed and the changes of trust are
/// forgotten.
pub proof fn law_next_step_ends_update(w: RuntimeModel, c: RuntimeConfig)
    requires
        spec_next_step_fires(
            w.refresh_reputation,
            c.refresh_reputation,
            w.reputation,
            w.challenges,
            c.challenges,
            w.block_number,
        ),
    ensures
        ({
            let w2 = spec_next_step(w, c);
            &&& w2.reputation.system_info.step == TIRStep::Free
            &&& w2.refresh_reputation.started_at is None
            &&& forall|k: AccountId| #[trigger] w2.trust.temp_trust[k] == Set::<AccountId>::empty()
            &&& forall|k: AccountId| #[trigger] w2.trust.temp_untrust[k] == Set::<AccountId>::empty()
            &&& w2.trust.lists == w.trust.lists
        }),
{
}

impl Pallet {
    /// What contracts see of the storage.
    pub open spec fn view(&self) -> RefreshModel {
        RefreshModel {
            started_at: self.started_at,
            payrolls: self.payrolls@,
            records: self.records@,
            paths: Map::new(|k: AccountPair| self.paths@.contains_key(k), |k: AccountPair| self.paths@[k]@),
        }
    }

    /// Empty storage with the given constants.
    pub fn new(config: Config) -> (p: Pallet)
        ensures
            p.config == config,
            p@.started_at is None,
            p@.payrolls == Map::<AccountId, Payroll>::empty(),
            p@.records == Map::<AccountPair, Record>::empty(),
            p@.paths == Map::<AccountPair, PathModel>::empty(),
    {
        let p = Pallet {
            config,
            started_at: None,
            payrolls: StorageMap::new(),
            records: StorageMap::new(),
            paths: StorageMap::new(),
        };
        assert(p@.paths =~= Map::<AccountPair, PathModel>::empty());
        p
    }

    /// When the current round started, if one is open.
    pub fn started_at(&self) -> (r: Option<BlockNumber>)
        ensures
            r == self@.started_at,
    {
        self.started_at
    }

    /// What `pathfinder` is owed.
    pub fn get_payroll(&self, pathfinder: &AccountId) -> (p: Payroll)
        ensures
            p == payroll_of(self@, *pathfinder),
    {
        match self.payrolls.get(pathfinder) {
            Some(p) => *p,
            None => Payroll { count: 0, total_fee: 0, update_at: 0 },
        }
    }

    /// The record of `pathfinder` for `who`.
    pub fn update_record(&self, pathfinder: &AccountId, who: &AccountId) -> (r: Record)
        ensures
            r == record_of(self@, *pathfinder, *who),
    {
        match self.records.get(&AccountPair { first: *pathfinder, second: *who }) {
            Some(r) => *r,
            None => Record { update_at: 0, fee: 0 },
        }
    }

    /// The path from `seed` to `target`.
    pub fn get_path(&self, seed: &AccountId, target: &AccountId) -> (p: Path)
        ensures
            p@ == path_of(self@, *seed, *target),
    {
        match self.paths.get(&AccountPair { first: *seed, second: *target }) {
            Some(p) => p.duplicate(),
            None => {
                let p = Path { nodes: Vec::new(), score: 0 };
                assert(p@.nodes =~= Seq::<AccountId>::empty());
                p
            },
        }
    }

    /// Credits `pathfinder` with `amount` for `count` more refreshes made at `now`.
    pub fn mutate_payroll(&mut self, pathfinder: &AccountId, amount: &Balance, count: &u32, now: &BlockNumber) -> (r:
        Result<(), DispatchError>)
        ensures
            final(self).config == old(self).config,
            match spec_mutate_payroll(old(self)@, *pathfinder, *amount, *count, *now) {
                Ok(s) => r is Ok && final(self)@ == s,
                Err(e) => r == Err::<(), DispatchError>(e) && final(self)@ == old(self)@,
            },
    {
        let p = self.get_payroll(pathfinder);
        let total_fee = match p.total_fee.checked_add(*amount) {
            Some(v) => v,
            None => {
                return Err(DispatchError::RefreshReputation(Error::Overflow));
            },
        };
        let count = match p.count.checked_add(*count) {
            Some(v) => v,
            None => {
                return Err(DispatchError::RefreshReputation(Error::Overflow));
            },
        };
        self.payrolls.insert(*pathfinder, Payroll { count, total_fee, update_at: *now });
        Ok(())
    }

    /// Sets the record of `pathfinder` for `who`: the fee `fee` earned at `now`.
    pub fn mutate_record(&mut self, pathfinder: &AccountId, who: &AccountId, fee: &Balance, now: &BlockNumber)
        ensures
            final(self).config == old(self).config,
            final(self)@ == (RefreshModel {
                records: old(self)@.records.insert(pair(*pathfinder, *who), Record { update_at: *now, fee: *fee }),
                ..old(self)@
            }),
    {
        self.records.insert(AccountPair { first: *pathfinder, second: *who }, Record { update_at: *now, fee: *fee });
    }

    /// Succeeds when the system is refreshing reputations.
    pub fn check_step(rep: &crate::reputation::Pallet) -> (r: Result<(), DispatchError>)
        ensures
            r == spec_check_step(rep@),
    {
        if !rep.is_step(&TIRStep::Reputation) {
            return Err(DispatchError::RefreshReputation(Error::StatusErr));
        }
        Ok(())
    }

    /// Succeeds when the system is refreshing reputations and a round is open.
    fn check_step_and_stared(&self, rep: &crate::reputation::Pallet) -> (r: Result<(), DispatchError>)
        ensures
            spec_check_step(rep@) is Err ==> r == spec_check_step(rep@),
            spec_check_step(rep@) is Ok ==> r == (if self@.started_at is Some {
                Ok::<(), DispatchError>(())
            } else {
                Err(DispatchError::RefreshReputation(Error::NotYetStarted))
            }),
    {
        Self::check_step(rep)?;
        if self.started_at.is_none() {
            return Err(DispatchError::RefreshReputation(Error::NotYetStarted));
        }
        Ok(())
    }

    /// Succeeds when the system is refreshing reputations and no round is open.
    fn check_step_and_not_stared(&self, rep: &crate::reputation::Pallet) -> (r: Result<(), DispatchError>)
        ensures
            spec_check_step(rep@) is Err ==> r == spec_check_step(rep@),
            spec_check_step(rep@) is Ok ==> r == (if self@.started_at is None {
                Ok::<(), DispatchError>(())
            } else {
                Err(DispatchError::RefreshReputation(Error::AlreadyStarted))
            }),
    {
        Self::check_step(rep)?;
        if self.started_at.is_some() {
            return Err(DispatchError::RefreshReputation(Error::AlreadyStarted));
        }
        Ok(())
    }

    /// Succeeds when `payroll` is past its confirmation period at `now`.
    fn can_harvest(&self, payroll: &Payroll, now: &BlockNumber) -> (r: Result<(), DispatchError>)
        ensures
            r == (if spec_can_harvest(self.config, payroll.update_at, *now) {
                Ok::<(), DispatchError>(())
            } else {
                Err(DispatchError::RefreshReputation(Error::ExcessiveBumberOfSeeds))
            }),
    {
        if (payroll.update_at as u128) + (self.config.confirmation_period as u128) < (*now as u128) {
            Ok(())
        } else {
            Err(DispatchError::RefreshReputation(Error::ExcessiveBumberOfSeeds))
        }
    }

    /// Ends the update at `now` when the last refresh is confirmed and every challenge has
    /// timed out.
    fn do_next_step(
        &mut self,
        trust: &mut crate::trust::Pallet,
        rep: &mut crate::reputation::Pallet,
        ch: &crate::challenges::Pallet,
        now: BlockNumber,
    )
        requires
            old(trust).wf(),
        ensures
            final(self).config == old(self).config,
            final(trust).config == old(trust).config,
            final(trust).wf(),
            spec_next_step_fires(old(self)@, old(self).config, old(rep)@, ch@, ch.config, now) ==> final(self)@
                == (RefreshModel { started_at: None, ..old(self)@ }) && final(trust)@ == spec_remove_all_tmp(
                old(trust)@,
            ) && final(rep)@ == spec_set_free(old(rep)@, now),
            !spec_next_step_fires(old(self)@, old(self).config, old(rep)@, ch@, ch.config, now) ==> final(self)@
                == old(self)@ && final(trust)@ == old(trust)@ && final(rep)@ == old(rep)@,
    {
        if self.started_at.is_some() {
            let is_last_ref_timeout = (rep.get_last_refresh_at() as u128) + (self.config.confirmation_period as u128)
                < (now as u128);
            let app = app_id();
            let is_cha_all_timeout = ch.is_all_timeout(&app, &now);
            if is_last_ref_timeout && is_cha_all_timeout {
                trust.remove_all_tmp();
                rep.set_free(now);
                self.started_at = None;
            }
        }
    }

    /// Ends the update when the last refresh is confirmed and every challenge of reputations
    /// has timed out: the changes of trust are forgotten, the system becomes free and the
    /// round closes.
    pub fn next_step(rt: &mut Runtime)
        requires
            old(rt).trust.wf(),
        ensures
            final(rt)@ == spec_next_step(old(rt)@, old(rt).config()),
            final(rt).config() == old(rt).config(),
            final(rt).trust.wf(),
            final(rt).refresh_seeds == old(rt).refresh_seeds,
    {
        let now = rt.system.block_number();
        rt.refresh_reputation.do_next_step(&mut rt.trust, &mut rt.reputation, &rt.challenges, now);
        assert(rt@ =~= spec_next_step(old(rt)@, old(rt).config()));
    }

    /// The caller harvests all it is owed, stakes and fees, once its last refresh is confirmed;
    /// its payroll and records are cleared.
    pub fn harvest_ref_all(rt: &mut Runtime, origin: Origin) -> (r: Result<(), DispatchError>)
        requires
            old(rt).trust.wf(),
        ensures
            final(rt).config() == old(rt).config(),
            final(rt).trust.wf(),
            final(rt).refresh_seeds == old(rt).refresh_seeds,
            match spec_harvest_ref_all(old(rt)@, old(rt).config(), origin) {
                Ok(w) => r is Ok && final(rt)@ == w,
                Err(e) => r == Err::<(), DispatchError>(e) && final(rt)@ == old(rt)@,
            },
    {
        let pathfinder = ensure_signed(origin)?;
        let now = rt.system.block_number();
        let payroll = rt.refresh_reputation.get_payroll(&pathfinder);
        rt.refresh_reputation.can_harvest(&payroll, &now)?;
        let total_amount = payroll.total_amount(rt.refresh_reputation.config.update_staking_amount);
        rt.tokens.release(&mut rt.currency, &pathfinder, &total_amount)?;
        let ghost w0 = rt@;
        Self::next_step(rt);
        let _ = rt.refresh_reputation.payrolls.remove(&pathfinder);
        rt.refresh_reputation.records.remove_prefix(&pathfinder);
        rt.system.deposit_event(RuntimeEvent::RefreshReputation(Event::RefreshedHarvested(pathfinder, total_amount)));
        proof {
            assert(spec_next_step(w0, old(rt).config()) == (RuntimeModel {
                tokens: w0.tokens,
                currency: w0.currency,
                ..spec_next_step(old(rt)@, old(rt).config())
            }));
            assert(rt@.refresh_reputation =~= spec_clear_pathfinder(
                spec_next_step(old(rt)@, old(rt).config()).refresh_reputation,
                pathfinder,
            ));
            assert(rt@ =~= spec_harvest_ref_all(old(rt)@, old(rt).config(), origin)->Ok_0);
        }
        Ok(())
    }

    /// A sweeper harvests what `pathfinder` has left unclaimed for too long, and keeps a fee.
    pub fn harvest_ref_all_sweeper(rt: &mut Runtime, origin: Origin, pathfinder: AccountId) -> (r: Result<
        (),
        DispatchError,
    >)
        requires
            old(rt).trust.wf(),
        ensures
            final(rt).config() == old(rt).config(),
            final(rt).trust.wf(),
            final(rt).refresh_seeds == old(rt).refresh_seeds,
            match spec_harvest_ref_all_sweeper(old(rt)@, old(rt).config(), origin, pathfinder) {
                Ok(w) => r is Ok && final(rt)@ == w,
                Err(e) => r == Err::<(), DispatchError>(e) && final(rt)@ == old(rt)@,
            },
    {
        let sweeper = ensure_signed(origin)?;
        let now = rt.system.block_number();
        let payroll = rt.refresh_reputation.get_payroll(&pathfinder);
        rt.refresh_reputation.can_harvest(&payroll, &now)?;
        let total_amount = payroll.total_amount(rt.refresh_reputation.config.update_staking_amount);
        let (sweeper_fee, without_fee) = match checked_with_fee(total_amount, payroll.update_at, now) {
            Some(v) => v,
            None => {
                return Err(DispatchError::RefreshReputation(Error::FailedSweeper));
            },
        };
        let saved_tokens = rt.tokens.duplicate();
        let saved_currency = rt.currency.duplicate();
        rt.tokens.release(&mut rt.currency, &sweeper, &sweeper_fee)?;
        match rt.tokens.release(&mut rt.currency, &pathfinder, &without_fee) {
            Ok(_) => {},
            Err(e) => {
                rt.tokens = saved_tokens;
                rt.currency = saved_currency;
                assert(rt@ =~= old(rt)@);
                return Err(e);
            },
        }
        let ghost w0 = rt@;
        Self::next_step(rt);
        let _ = rt.refresh_reputation.payrolls.remove(&pathfinder);
        rt.refresh_reputation.records.remove_prefix(&pathfinder);
        rt.system.deposit_event(
            RuntimeEvent::RefreshReputation(
                Event::RefreshedHarvestedBySweeper(pathfinder, sweeper, without_fee, sweeper_fee),
            ),
        );
        proof {
            assert(spec_next_step(w0, old(rt).config()) == (RuntimeModel {
                tokens: w0.tokens,
                currency: w0.currency,
                ..spec_next_step(old(rt)@, old(rt).config())
            }));
            assert(rt@.refresh_reputation =~= spec_clear_pathfinder(
                spec_next_step(old(rt)@, old(rt).config()).refresh_reputation,
                pathfinder,
            ));
            assert(rt@ =~= spec_harvest_ref_all_sweeper(old(rt)@, old(rt).config(), origin, pathfinder)->Ok_0);
        }
        Ok(())
    }

    /// The caller harvests the challenge against `target`; it must be the winner, or a sweeper.
    pub fn harvest_challenge(rt: &mut Runtime, origin: Origin, target: AccountId) -> (r: Result<(), DispatchError>)
        requires
            old(rt).trust.wf(),
        ensures
            final(rt).config() == old(rt).config(),
            final(rt).trust.wf(),
            final(rt).refresh_seeds == old(rt).refresh_seeds,
            match spec_harvest_challenge(old(rt)@, old(rt).config(), origin, target) {
                Ok(w) => r is Ok && final(rt)@ == w,
                Err(e) => r == Err::<(), DispatchError>(e) && final(rt)@ == old(rt)@,
            },
    {
        let who = ensure_signed(origin)?;
        let now = rt.system.block_number();
        let app = app_id();
        let _ = rt.challenges.harvest(&mut rt.tokens, &mut rt.currency, &who, &app, &target, now)?;
        let ghost w0 = rt@;
        Self::next_step(rt);
        rt.system.deposit_event(RuntimeEvent::RefreshReputation(Event::ChallengeHarvested(who, target)));
        proof {
            assert(spec_next_step(w0, old(rt).config()) == (RuntimeModel {
                tokens: w0.tokens,
                currency: w0.currency,
                challenges: w0.challenges,
                ..spec_next_step(old(rt)@, old(rt).config())
            }));
            assert(rt@ =~= spec_harvest_challenge(old(rt)@, old(rt).config(), origin, target)->Ok_0);
        }
        Ok(())
    }

    /// The caller challenges the reputation of `target` refreshed by `pathfinder`: it claims
    /// that `quantity` paths give the score `score`. The fee of the refresh goes to the pool
    /// of the challenge, which goes straight to arbitration.
    ///
    /// Refused when the score is the same as the reputation, when `quantity` is larger than
    /// the number of seeds, when the reputation has not been refreshed in this round, when it
    /// is already challenged, or when the refresh is already confirmed.
    pub fn challenge(
        rt: &mut Runtime,
        origin: Origin,
        target: AccountId,
        pathfinder: AccountId,
        quantity: u32,
        score: u32,
    ) -> (r: Result<(), DispatchError>)
        ensures
            final(rt).config() == old(rt).config(),
            final(rt).trust == old(rt).trust,
            final(rt).seeds == old(rt).seeds,
            final(rt).refresh_seeds == old(rt).refresh_seeds,
            match spec_challenge(old(rt)@, old(rt).config(), origin, target, pathfinder, quantity, score) {
                Ok(w) => r is Ok && final(rt)@ == w,
                Err(e) => r == Err::<(), DispatchError>(e) && final(rt)@ == old(rt)@,
            },
    {
        let challenger = ensure_signed(origin)?;
        Self::check_step(&rt.reputation)?;
        if quantity > rt.seeds.get_seed_count() {
            return Err(DispatchError::RefreshReputation(Error::ExcessiveBumberOfSeeds));
        }
        let reputation = match rt.reputation.get_reputation_new(&target) {
            Some(v) => v,
            None => {
                return Err(DispatchError::RefreshReputation(Error::ReputationError));
            },
        };
        if score == reputation {
            return Err(DispatchError::RefreshReputation(Error::SameReputation));
        }
        let now = rt.system.block_number();
        let record = rt.refresh_reputation.update_record(&pathfinder, &target);
        if !((record.update_at as u128) + (rt.refresh_reputation.config.confirmation_period as u128) > (now as u128)) {
            return Err(DispatchError::RefreshReputation(Error::ChallengeTimeout));
        }
        let meta = Metadata {
            pool: Pool { staking: 0, earnings: record.fee },
            joint_benefits: false,
            progress: Progress { total: quantity, done: 0 },
            last_update: 0,
            remark: reputation,
            score: 0,
            pathfinder,
            status: ChallengeStatus::Examine,
            challenger,
        };
        let app = app_id();
        rt.challenges.launch(&mut rt.tokens, &mut rt.currency, &mut rt.system, &app, &target, &meta)?;
        let ghost ch1 = rt.challenges@;
        let _ = rt.refresh_reputation.records.remove(&AccountPair { first: pathfinder, second: target });
        let p = rt.refresh_reputation.get_payroll(&pathfinder);
        rt.refresh_reputation.payrolls.insert(
            pathfinder,
            Payroll {
                total_fee: p.total_fee.saturating_sub(record.fee),
                count: p.count.saturating_sub(1),
                update_at: p.update_at,
            },
        );
        rt.challenges.set_status(&app, &target, &ChallengeStatus::Arbitral);
        rt.system.deposit_event(RuntimeEvent::RefreshReputation(Event::Challenge(challenger, target)));
        proof {
            let m = spec_launch_meta(old(rt)@.challenges, old(rt).config().challenges, app, target, meta, now)->Ok_0;
            assert(meta_of(ch1, app, target) == m);
            assert(rt@ =~= spec_challenge(old(rt)@, old(rt).config(), origin, target, pathfinder, quantity, score)->Ok_0);
        }
        Ok(())
    }

    /// Checks the paths `paths` from `seeds` to `target` and adds their scores to `score`.
    fn update_paths_check(&self, target: &AccountId, seeds: &Vec<AccountId>, paths: &Vec<Path>, score: u32) -> (r:
        Result<u32, DispatchError>)
        requires
            seeds@.len() == paths@.len(),
        ensures
            r == spec_update_fold(self@, *target, seeds@, path_models(paths@), 0, score),
    {
        let n = seeds.len();
        let mut acc = score;
        let mut i: usize = 0;
        while i < n
            invariant
                n == seeds@.len(),
                n == paths@.len(),
                0 <= i <= n,
                spec_update_fold(self@, *target, seeds@, path_models(paths@), 0, score) == spec_update_fold(
                    self@,
                    *target,
                    seeds@,
                    path_models(paths@),
                    i as int,
                    acc,
                ),
            decreases n - i,
        {
            let seed = seeds[i];
            let path = &paths[i];
            assert(path_models(paths@)[i as int] == path@);
            if self.paths.contains_key(&AccountPair { first: seed, second: *target }) {
                return Err(DispatchError::RefreshReputation(Error::PathAlreadyExist));
            }
            if !path.exclude_zero() {
                return Err(DispatchError::RefreshReputation(Error::WrongPath));
            }
            acc = match acc.checked_add(path.score) {
                Some(v) => v,
                None => {
                    return Err(DispatchError::RefreshReputation(Error::Overflow));
                },
            };
            i = i + 1;
        }
        Ok(acc)
    }

    /// Stores the paths `paths` from `seeds` to `target`.
    fn insert_paths(&mut self, target: &AccountId, seeds: &Vec<AccountId>, paths: &Vec<Path>)
        requires
            seeds@.len() == paths@.len(),
        ensures
            final(self).config == old(self).config,
            final(self)@ == (RefreshModel {
                paths: spec_insert_paths(old(self)@.paths, *target, seeds@, path_models(paths@), seeds@.len() as int),
                ..old(self)@
            }),
    {
        let n = seeds.len();
        let mut i: usize = 0;
        while i < n
            invariant
                n == seeds@.len(),
                n == paths@.len(),
                0 <= i <= n,
                self.config == old(self).config,
                self@ == (RefreshModel {
                    paths: spec_insert_paths(old(self)@.paths, *target, seeds@, path_models(paths@), i as int),
                    ..old(self)@
                }),
            decreases n - i,
        {
            let p = paths[i].duplicate();
            let ghost before = self@;
            self.paths.insert(AccountPair { first: seeds[i], second: *target }, p);
            proof {
                assert(path_models(paths@)[i as int] == paths@[i as int]@);
                assert(self@.paths =~= before.paths.insert(pair(seeds@[i as int], *target), paths@[i as int]@));
            }
            i = i + 1;
        }
    }

    /// The challenger uploads the paths `paths` from `seeds` to `target`; the paths are not
    /// checked for their values. The upload may take several calls before the challenge is
    /// complete; then the sum of the scores becomes the reputation of `target`.
    pub fn challenge_update(
        rt: &mut Runtime,
        origin: Origin,
        target: AccountId,
        seeds: Vec<AccountId>,
        paths: Vec<Path>,
    ) -> (r: Result<(), DispatchError>)
        ensures
            final(rt).config() == old(rt).config(),
            final(rt).trust == old(rt).trust,
            final(rt).seeds == old(rt).seeds,
            final(rt).refresh_seeds == old(rt).refresh_seeds,
            match spec_challenge_update(old(rt)@, old(rt).config(), origin, target, seeds@, path_models(paths@)) {
                Ok(w) => r is Ok && final(rt)@ == w,
                Err(e) => r == Err::<(), DispatchError>(e) && final(rt)@ == old(rt)@,
            },
    {
        let challenger = ensure_signed(origin)?;
        Self::check_step(&rt.reputation)?;
        let count = seeds.len();
        if count != paths.len() {
            return Err(DispatchError::RefreshReputation(Error::NotMatch));
        }
        let app = app_id();
        let m = rt.challenges.next_begin(&app, &challenger, &target, &(count as u32))?;
        let new_score = rt.refresh_reputation.update_paths_check(&target, &seeds, &paths, m.score as u32)?;
        let now = rt.system.block_number();
        rt.challenges.next_finish(&app, &target, &m, new_score as u64, m.remark, now);
        rt.refresh_reputation.insert_paths(&target, &seeds, &paths);
        if m.is_all_done() {
            rt.reputation.mutate_reputation(&target, &new_score);
        }
        rt.system.deposit_event(RuntimeEvent::RefreshReputation(Event::PathUpdated(challenger, target)));
        proof {
            assert(rt@ =~= spec_challenge_update(old(rt)@, old(rt).config(), origin, target, seeds@, path_models(paths@))->Ok_0);
        }
        Ok(())
    }

    /// The distance of `path` from `seed` to `target`; see `spec_get_dist`.
    pub fn get_dist(
        trust: &crate::trust::Pallet,
        seeds: &crate::seeds::Pallet,
        rep: &crate::reputation::Pallet,
        path: &Path,
        seed: &AccountId,
        target: &AccountId,
    ) -> (r: Option<u32>)
        requires
            trust.wf(),
            spec_counts_ok(trust@),
            seeds.wf(),
            rep.nonce_ok(),
            trust.config.damping_factor.parts <= BILLION,
        ensures
            r == spec_get_dist(trust@, seeds@, rep@, trust.config.damping_factor.parts, path@, *seed, *target),
    {
        if path.check_nodes_leng() {
            let mut nodes: Vec<AccountId> = Vec::new();
            nodes.push(*seed);
            let mut i: usize = 0;
            while i < path.nodes.len()
                invariant
                    0 <= i <= path.nodes@.len(),
                    nodes@ == seq![*seed] + path.nodes@.subrange(0, i as int),
                decreases path.nodes@.len() - i,
            {
                nodes.push(path.nodes[i]);
                assert(nodes@ =~= seq![*seed] + path.nodes@.subrange(0, i + 1));
                i = i + 1;
            }
            nodes.push(*target);
            assert(nodes@ =~= seq![*seed] + path.nodes@ + seq![*target]);
            if let Ok((dist, score)) = trust.computed_path(seeds, rep, &nodes) {
                if score == path.score {
                    return Some(dist);
                }
            }
        }
        None
    }

    /// Checks the paths `paths` from `seeds` to `target` against the stored ones and returns
    /// `score` with their scores replaced.
    fn verify_paths_check(
        &self,
        trust: &crate::trust::Pallet,
        seed_pallet: &crate::seeds::Pallet,
        rep: &crate::reputation::Pallet,
        target: &AccountId,
        seeds: &Vec<AccountId>,
        paths: &Vec<Path>,
        score: u32,
    ) -> (r: Result<u32, DispatchError>)
        requires
            seeds@.len() == paths@.len(),
            trust.wf(),
            spec_counts_ok(trust@),
            seed_pallet.wf(),
            rep.nonce_ok(),
            trust.config.damping_factor.parts <= BILLION,
        ensures
            r == spec_verify_fold(
                self@,
                trust@,
                seed_pallet@,
                rep@,
                trust.config.damping_factor.parts,
                *target,
                seeds@,
                path_models(paths@),
                0,
                score,
            ),
    {
        let n = seeds.len();
        let mut acc = score;
        let mut i: usize = 0;
        while i < n
            invariant
                n == seeds@.len(),
                n == paths@.len(),
                0 <= i <= n,
                trust.wf(),
                spec_counts_ok(trust@),
                seed_pallet.wf(),
                rep.nonce_ok(),
                trust.config.damping_factor.parts <= BILLION,
                spec_verify_fold(
                    self@,
                    trust@,
                    seed_pallet@,
                    rep@,
                    trust.config.damping_factor.parts,
                    *target,
                    seeds@,
                    path_models(paths@),
                    0,
                    score,
                ) == spec_verify_fold(
                    self@,
                    trust@,
                    seed_pallet@,
                    rep@,
                    trust.config.damping_factor.parts,
                    *target,
                    seeds@,
                    path_models(paths@),
                    i as int,
                    acc,
                ),
            decreases n - i,
        {
            let seed = seeds[i];
            let path = &paths[i];
            assert(path_models(paths@)[i as int] == path@);
            let dist_new = match Self::get_dist(trust, seed_pallet, rep, path, &seed, target) {
                Some(d) => d,
                None => {
                    return Err(DispatchError::RefreshReputation(Error::DistErr));
                },
            };
            let old_path = self.get_path(&seed, target);
            if let Some(old_dist) = Self::get_dist(trust, seed_pallet, rep, &old_path, &seed, target) {
                if old_dist < dist_new {
                    return Err(DispatchError::RefreshReputation(Error::DistTooLong));
                }
                if old_dist == dist_new {
                    if !(old_path.score > path.score) {
                        return Err(DispatchError::RefreshReputation(Error::ScoreTooLow));
                    }
                }
            }
            acc = match acc.checked_sub(old_path.score) {
                Some(v) => match v.checked_add(path.score) {
                    Some(w) => w,
                    None => {
                        return Err(DispatchError::RefreshReputation(Error::Overflow));
                    },
                },
                None => {
                    return Err(DispatchError::RefreshReputation(Error::Overflow));
                },
            };
            i = i + 1;
        }
        Ok(acc)
    }

    /// Replaces the paths from `seeds` to `target` with `paths`; a path without score removes
    /// the stored one.
    fn put_paths(&mut self, target: &AccountId, seeds: &Vec<AccountId>, paths: &Vec<Path>)
        requires
            seeds@.len() == paths@.len(),
        ensures
            final(self).config == old(self).config,
            final(self)@ == (RefreshModel {
                paths: spec_put_paths(old(self)@.paths, *target, seeds@, path_models(paths@), seeds@.len() as int),
                ..old(self)@
            }),
    {
        let n = seeds.len();
        let mut i: usize = 0;
        while i < n
            invariant
                n == seeds@.len(),
                n == paths@.len(),
                0 <= i <= n,
                self.config == old(self).config,
                self@ == (RefreshModel {
                    paths: spec_put_paths(old(self)@.paths, *target, seeds@, path_models(paths@), i as int),
                    ..old(self)@
                }),
            decreases n - i,
        {
            let key = AccountPair { first: seeds[i], second: *target };
            let ghost before = self@;
            proof {
                assert(path_models(paths@)[i as int] == paths@[i as int]@);
            }
            if paths[i].score == 0 {
                let _ = self.paths.remove(&key);
                assert(self@.paths =~= before.paths.remove(key));
            } else {
                let p = paths[i].duplicate();
                self.paths.insert(key, p);
                assert(self@.paths =~= before.paths.insert(key, paths@[i as int]@));
            }
            i = i + 1;
        }
    }

    /// Arbitration of a challenged reputation: the caller uploads paths from `seeds` to
    /// `target` that are shorter than the stored ones, or as long with a lower score. The
    /// corrected sum becomes the reputation of `target`. Anyone but the challenger may do so
    /// only after the challenge has timed out, and stakes first.
    pub fn arbitral(
        rt: &mut Runtime,
        origin: Origin,
        target: AccountId,
        seeds: Vec<AccountId>,
        paths: Vec<Path>,
    ) -> (r: Result<(), DispatchError>)
        requires
            old(rt).trust.wf(),
            spec_counts_ok(old(rt).trust@),
            old(rt).seeds.wf(),
            old(rt).reputation.nonce_ok(),
            old(rt).trust.config.damping_factor.parts <= BILLION,
        ensures
            final(rt).config() == old(rt).config(),
            final(rt).trust == old(rt).trust,
            final(rt).seeds == old(rt).seeds,
            final(rt).refresh_seeds == old(rt).refresh_seeds,
            match spec_arbitral(old(rt)@, old(rt).config(), origin, target, seeds@, path_models(paths@)) {
                Ok(w) => r is Ok && final(rt)@ == w,
                Err(e) => r == Err::<(), DispatchError>(e) && final(rt)@ == old(rt)@,
            },
    {
        let who = ensure_signed(origin)?;
        Self::check_step(&rt.reputation)?;
        if seeds.len() != paths.len() {
            return Err(DispatchError::RefreshReputation(Error::NotMatch));
        }
        let app = app_id();
        let now = rt.system.block_number();
        let (m, needs_stake) = rt.challenges.arbitral_begin(&app, &who, &target, now)?;
        let saved_tokens = rt.tokens.duplicate();
        let saved_currency = rt.currency.duplicate();
        rt.challenges.stake_if(&mut rt.tokens, &mut rt.currency, &who, needs_stake)?;
        let new_score = match rt.refresh_reputation.verify_paths_check(
            &rt.trust,
            &rt.seeds,
            &rt.reputation,
            &target,
            &seeds,
            &paths,
            m.score as u32,
        ) {
            Ok(v) => v,
            Err(e) => {
                rt.tokens = saved_tokens;
                rt.currency = saved_currency;
                assert(rt@ =~= old(rt)@);
                return Err(e);
            },
        };
        match rt.challenges.arbitral_finish(
            &mut rt.tokens,
            &mut rt.currency,
            &app,
            &target,
            &m,
            new_score == m.remark,
            false,
            new_score as u64,
            now,
        ) {
            Ok(_) => {},
            Err(e) => {
                rt.tokens = saved_tokens;
                rt.currency = saved_currency;
                assert(rt@ =~= old(rt)@);
                return Err(e);
            },
        }
        rt.refresh_reputation.put_paths(&target, &seeds, &paths);
        rt.reputation.mutate_reputation(&target, &new_score);
        rt.system.deposit_event(RuntimeEvent::RefreshReputation(Event::Arbitral(who, target)));
        proof {
            assert(rt@ =~= spec_arbitral(old(rt)@, old(rt).config(), origin, target, seeds@, path_models(paths@))->Ok_0);
        }
        Ok(())
    }

    /// Opens a new round of refreshing. Anyone may call it, without staking: the payrolls left
    /// over from the last round are paid out and the caller receives the sweeper's fees, and
    /// a pathfinder may get ahead to refresh the users with the highest fees.
    ///
    /// Refused while a challenge is unharvested, when a round is already open, or before the
    /// confirmation period has passed since the system was last active.
    pub fn start(rt: &mut Runtime, origin: Origin) -> (r: Result<(), DispatchError>)
        ensures
            final(rt).config() == old(rt).config(),
            final(rt).trust == old(rt).trust,
            final(rt).seeds == old(rt).seeds,
            final(rt).refresh_seeds == old(rt).refresh_seeds,
            match spec_start(old(rt)@, old(rt).config(), origin, old(rt).refresh_reputation.payrolls.pairs()) {
                Ok(w) => r is Ok && final(rt)@ == w,
                Err(e) => r == Err::<(), DispatchError>(e) && final(rt)@ == old(rt)@,
            },
    {
        let who = ensure_signed(origin)?;
        rt.refresh_reputation.check_step_and_not_stared(&rt.reputation)?;
        let app = app_id();
        if !rt.challenges.is_all_harvest(&app) {
            return Err(DispatchError::RefreshReputation(Error::ChallengeNotClaimed));
        }
        let now = rt.system.block_number();
        let last = rt.reputation.get_last_refresh_at();
        if !((last as u128) + (rt.refresh_reputation.config.confirmation_period as u128) < (now as u128)) {
            return Err(DispatchError::RefreshReputation(Error::NotInTime));
        }
        let ghost ps = rt.refresh_reputation.payrolls.pairs();
        let ghost w0 = rt@;
        let pool = rt.tokens.config.social_pool;
        let staking_amount = rt.refresh_reputation.config.update_staking_amount;
        let saved_tokens = rt.tokens.duplicate();
        let saved_currency = rt.currency.duplicate();
        let n = rt.refresh_reputation.payrolls.len();
        let mut total_fee: u128 = 0;
        let mut i: usize = 0;
        while i < n
            invariant
                0 <= i <= n,
                n == ps.len(),
                rt.refresh_reputation == old(rt).refresh_reputation,
                ps == rt.refresh_reputation.payrolls.pairs(),
                rt.trust == old(rt).trust,
                rt.seeds == old(rt).seeds,
                rt.refresh_seeds == old(rt).refresh_seeds,
                rt.config() == old(rt).config(),
                pool == rt.tokens.config.social_pool,
                staking_amount == rt.refresh_reputation.config.update_staking_amount,
                rt@ == (RuntimeModel { tokens: rt@.tokens, currency: rt@.currency, ..w0 }),
                w0 == old(rt)@,
                origin == Origin::Signed(who),
                spec_check_step(w0.reputation) is Ok,
                w0.refresh_reputation.started_at is None,
                spec_is_all_harvest(w0.challenges, spec_app_id()),
                spec_start_in_time(w0, old(rt).config()),
                saved_tokens@ == w0.tokens,
                saved_tokens.config == old(rt).tokens.config,
                saved_currency@ == w0.currency,
                spec_start_fold(w0.tokens, w0.currency, pool, staking_amount, ps, 0, 0) == spec_start_fold(
                    rt.tokens@,
                    rt.currency@,
                    pool,
                    staking_amount,
                    ps,
                    i as int,
                    total_fee,
                ),
            decreases n - i,
        {
            let (pathfinder, payroll) = rt.refresh_reputation.payrolls.pair_at(i);
            let pathfinder = *pathfinder;
            let payroll = *payroll;
            let (sweeper_fee, without_fee) = with_fee(payroll.total_amount(staking_amount));
            let ghost t_before = rt.tokens@;
            let ghost c_before = rt.currency@;
            assert(ps[i as int] == (pathfinder, payroll));
            match rt.tokens.release(&mut rt.currency, &pathfinder, &without_fee) {
                Ok(_) => {},
                Err(e) => {
                    assert(spec_start_fold(t_before, c_before, pool, staking_amount, ps, i as int, total_fee)
                        == Err::<(TokensModel, CurrencyModel, u128), DispatchError>(e));
                    rt.tokens = saved_tokens;
                    rt.currency = saved_currency;
                    assert(rt@ =~= old(rt)@);
                    return Err(e);
                },
            }
            total_fee = match total_fee.checked_add(sweeper_fee) {
                Some(v) => v,
                None => {
                    assert(spec_start_fold(t_before, c_before, pool, staking_amount, ps, i as int, total_fee)
                        == Err::<(TokensModel, CurrencyModel, u128), DispatchError>(
                        DispatchError::RefreshReputation(Error::Overflow),
                    ));
                    rt.tokens = saved_tokens;
                    rt.currency = saved_currency;
                    assert(rt@ =~= old(rt)@);
                    return Err(DispatchError::RefreshReputation(Error::Overflow));
                },
            };
            i = i + 1;
        }
        match rt.tokens.release(&mut rt.currency, &who, &total_fee) {
            Ok(_) => {},
            Err(e) => {
                rt.tokens = saved_tokens;
                rt.currency = saved_currency;
                assert(rt@ =~= old(rt)@);
                return Err(e);
            },
        }
        rt.refresh_reputation.payrolls = StorageMap::new();
        let now = rt.system.block_number();
        rt.refresh_reputation.started_at = Some(now);
        rt.system.deposit_event(RuntimeEvent::RefreshReputation(Event::Started(who)));
        proof {
            assert(rt@ =~= spec_start(old(rt)@, old(rt).config(), origin, ps)->Ok_0);
        }
        Ok(())
    }

    /// The caller, a pathfinder, stakes for every user of `user_scores` and refreshes its
    /// reputation; the social balance of each user is shared among the users it trusted when
    /// the update started, and the fee credited to the pathfinder's payroll.
    ///
    /// The outcome is stated for a trust pallet whose recorded changes agree with its lists,
    /// which every call of `trust` and `untrust` keeps; otherwise the list of users that a
    /// share goes to is not stated, and a failing call still changes nothing.
    pub fn refresh(rt: &mut Runtime, origin: Origin, user_scores: Vec<(AccountId, u32)>) -> (r: Result<
        (),
        DispatchError,
    >)
        requires
            old(rt).trust.wf(),
            forall|i: int|
                0 <= i < user_scores@.len() ==> old(rt).trust.list_seq((#[trigger] user_scores@[i]).0).len()
                    < usize::MAX,
        ensures
            final(rt).config() == old(rt).config(),
            final(rt).trust == old(rt).trust,
            final(rt).seeds == old(rt).seeds,
            final(rt).refresh_seeds == old(rt).refresh_seeds,
            r is Err ==> final(rt)@ == old(rt)@,
            spec_consistent(old(rt).trust@) ==> match spec_refresh(old(rt)@, old(rt).config(), origin, user_scores@) {
                Ok(w) => r is Ok && final(rt)@ == w,
                Err(e) => r == Err::<(), DispatchError>(e),
            },
    {
        let pathfinder = ensure_signed(origin)?;
        let user_count = user_scores.len();
        if (user_count as u32) > rt.refresh_reputation.config.max_update_count {
            return Err(DispatchError::RefreshReputation(Error::QuantityLimitReached));
        }
        rt.refresh_reputation.check_step_and_stared(&rt.reputation)?;
        let now = rt.system.block_number();
        rt.refresh_reputation.check_timeout(&now)?;
        let old_count = rt.refresh_reputation.get_payroll(&pathfinder).count;
        if !(old_count.saturating_add(user_count as u32) < MAX_REFRESH) {
            return Err(DispatchError::RefreshReputation(Error::ExceedMaxRefresh));
        }
        let amount = match rt.refresh_reputation.config.update_staking_amount.checked_mul(user_count as u128) {
            Some(v) => v,
            None => {
                return Err(DispatchError::RefreshReputation(Error::Overflow));
            },
        };
        let pool = rt.tokens.config.social_pool;
        let saved_tokens = rt.tokens.duplicate();
        let saved_currency = rt.currency.duplicate();
        let saved_reputation = rt.reputation.duplicate();
        let saved_records = rt.refresh_reputation.records.duplicate();
        rt.tokens.staking(&mut rt.currency, &pathfinder, &amount)?;
        let ghost t1 = rt.tokens@;
        let ghost c1 = rt.currency@;
        let ghost w0 = old(rt)@;
        let mut total_fee: u128 = 0;
        let mut i: usize = 0;
        while i < user_count
            invariant
                0 <= i <= user_count,
                user_count == user_scores@.len(),
                w0 == old(rt)@,
                origin == Origin::Signed(pathfinder),
                (user_count as u32) <= old(rt).config().refresh_reputation.max_update_count,
                spec_check_step(w0.reputation) is Ok,
                w0.refresh_reputation.started_at is Some,
                spec_in_time(old(rt).config().refresh_reputation, w0.refresh_reputation.started_at, now),
                sat_add_u32(payroll_of(w0.refresh_reputation, pathfinder).count, user_count as u32) < MAX_REFRESH,
                amount == old(rt).config().refresh_reputation.update_staking_amount * user_count,
                now == w0.block_number,
                pool == old(rt).config().tokens.social_pool,
                spec_staking(w0.tokens, w0.currency, pool, pathfinder, amount) == Ok::<
                    (TokensModel, CurrencyModel),
                    DispatchError,
                >((t1, c1)),
                rt.trust == old(rt).trust,
                rt.trust.wf(),
                forall|j: int|
                    0 <= j < user_scores@.len() ==> rt.trust.list_seq((#[trigger] user_scores@[j]).0).len()
                        < usize::MAX,
                rt.seeds == old(rt).seeds,
                rt.refresh_seeds == old(rt).refresh_seeds,
                rt.config() == old(rt).config(),
                rt@ == (RuntimeModel {
                    reputation: rt@.reputation,
                    tokens: rt@.tokens,
                    currency: rt@.currency,
                    refresh_reputation: RefreshModel {
                        records: rt@.refresh_reputation.records,
                        ..w0.refresh_reputation
                    },
                    ..w0
                }),
                saved_tokens@ == w0.tokens,
                saved_tokens.config == old(rt).tokens.config,
                saved_currency@ == w0.currency,
                saved_reputation@ == w0.reputation,
                saved_records@ == w0.refresh_reputation.records,
                spec_consistent(w0.trust) ==> spec_refresh_fold(
                    w0.reputation,
                    t1,
                    c1,
                    w0.refresh_reputation.records,
                    w0.trust,
                    pool,
                    pathfinder,
                    user_scores@,
                    now,
                    0,
                    0,
                ) == spec_refresh_fold(
                    rt.reputation@,
                    rt.tokens@,
                    rt.currency@,
                    rt.refresh_reputation@.records,
                    w0.trust,
                    pool,
                    pathfinder,
                    user_scores@,
                    now,
                    i as int,
                    total_fee,
                ),
            decreases user_count - i,
        {
            let user_score = user_scores[i];
            let ghost rep_before = rt.reputation@;
            let ghost t_before = rt.tokens@;
            let ghost c_before = rt.currency@;
            let ghost recs_before = rt.refresh_reputation@.records;
            match rt.reputation.refresh_reputation(&user_score) {
                Ok(_) => {},
                Err(e) => {
                    assert(spec_consistent(w0.trust) ==> spec_refresh_fold(
                        rep_before,
                        t_before,
                        c_before,
                        recs_before,
                        w0.trust,
                        pool,
                        pathfinder,
                        user_scores@,
                        now,
                        i as int,
                        total_fee,
                    ) == Err::<(ReputationModel, TokensModel, CurrencyModel, Map<AccountPair, Record>, u128), DispatchError>(e));
                    rt.tokens = saved_tokens;
                    rt.currency = saved_currency;
                    rt.reputation = saved_reputation;
                    rt.refresh_reputation.records = saved_records;
                    assert(rt@ =~= old(rt)@);
                    return Err(e);
                },
            }
            let who = user_score.0;
            assert(user_scores@[i as int].0 == who);
            let fee = Self::share(&mut rt.tokens, &mut rt.currency, &rt.trust, &who);
            rt.refresh_reputation.mutate_record(&pathfinder, &who, &fee, &now);
            total_fee = match total_fee.checked_add(fee) {
                Some(v) => v,
                None => {
                    assert(spec_consistent(w0.trust) ==> spec_refresh_fold(
                        rep_before,
                        t_before,
                        c_before,
                        recs_before,
                        w0.trust,
                        pool,
                        pathfinder,
                        user_scores@,
                        now,
                        i as int,
                        total_fee,
                    ) == Err::<(ReputationModel, TokensModel, CurrencyModel, Map<AccountPair, Record>, u128), DispatchError>(
                        DispatchError::RefreshReputation(Error::Overflow),
                    ));
                    rt.tokens = saved_tokens;
                    rt.currency = saved_currency;
                    rt.reputation = saved_reputation;
                    rt.refresh_reputation.records = saved_records;
                    assert(rt@ =~= old(rt)@);
                    return Err(DispatchError::RefreshReputation(Error::Overflow));
                },
            };
            proof {
                assert(rt@ =~= (RuntimeModel {
                    reputation: rt@.reputation,
                    tokens: rt@.tokens,
                    currency: rt@.currency,
                    refresh_reputation: RefreshModel {
                        records: rt@.refresh_reputation.records,
                        ..w0.refresh_reputation
                    },
                    ..w0
                }));
            }
            i = i + 1;
        }
        let ghost before_payroll = rt.refresh_reputation@;
        match rt.refresh_reputation.mutate_payroll(&pathfinder, &total_fee, &(user_count as u32), &now) {
            Ok(_) => {},
            Err(e) => {
                rt.tokens = saved_tokens;
                rt.currency = saved_currency;
                rt.reputation = saved_reputation;
                rt.refresh_reputation.records = saved_records;
                assert(rt@ =~= old(rt)@);
                return Err(e);
            },
        }
        rt.reputation.set_last_refresh_at(now);
        rt.system.deposit_event(
            RuntimeEvent::RefreshReputation(Event::ReputationRefreshed(pathfinder, user_count as u32, total_fee)),
        );
        proof {
            assert(before_payroll =~= (RefreshModel {
                records: before_payroll.records,
                ..old(rt)@.refresh_reputation
            }));
            if spec_consistent(old(rt).trust@) {
                assert(rt@ =~= spec_refresh(old(rt)@, old(rt).config(), origin, user_scores@)->Ok_0);
            }
        }
        Ok(())
    }

    /// The fee earned by refreshing `user`: the social balance of `user` is shared among the
    /// users it trusted when the update started. The list of those users is stated when the
    /// recorded changes of trust agree with the lists.
    pub fn share(
        tokens: &mut crate::tokens::Pallet,
        cur: &mut Currency,
        trust: &crate::trust::Pallet,
        user: &AccountId,
    ) -> (fee: Balance)
        requires
            trust.wf(),
            trust.list_seq(*user).len() < usize::MAX,
        ensures
            final(tokens).config == old(tokens).config,
            spec_consistent(trust@) ==> ({
                let (t, f, burn) = spec_share(old(tokens)@, *user, spec_trust_old_list(trust@, *user));
                &&& fee == f
                &&& final(tokens)@ == t
                &&& final(cur)@ == spec_slash(old(cur)@, old(tokens).config.social_pool, burn).0
            }),
    {
        let targets = trust.get_trust_old(user);
        tokens.share(cur, user, &targets)
    }

    /// Succeeds when refreshes may still be added at `now`.
    fn check_timeout(&self, now: &BlockNumber) -> (r: Result<(), DispatchError>)
        ensures
            r == (if spec_in_time(self.config, self@.started_at, *now) {
                Ok::<(), DispatchError>(())
            } else {
                Err(DispatchError::RefreshReputation(Error::RefreshTiomeOut))
            }),
    {
        let started = match self.started_at {
            Some(b) => b,
            None => 0,
        };
        if (*now as u128) < (started as u128) + (self.config.ref_repu_timeout as u128) {
            Ok(())
        } else {
            Err(DispatchError::RefreshReputation(Error::RefreshTiomeOut))
        }
    }
}

} // verus!
