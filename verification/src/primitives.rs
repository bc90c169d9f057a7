//! Types and arithmetic shared by the pallets.
use crate::perbill::{spec_mul_floor, Perbill};
use vstd::prelude::*;

verus! {

/// An account.
pub type AccountId = u64;

/// A block height.
pub type BlockNumber = u64;

/// Balance of an account.
pub type Balance = u128;

/// The currencies of the chain.
#[derive(Clone, Copy, PartialEq, Eq, Structural, PartialOrd, Ord, Debug)]
pub enum CurrencyId {
    ZDAO,
    SOCI,
}

/// After this many blocks without activity a sweeper may collect.
pub const SWEEPER_PERIOD: u64 = 500;

/// The share of the earnings that a sweeper receives: twenty per thousand.
pub fn sweeper_pickup_ratio() -> (r: Perbill)
    ensures
        r.parts == 20_000_000,
{
    Perbill::from_perthousand(20)
}

/// The step of the reputation algorithm the system is in.
#[derive(Clone, Copy, PartialEq, Eq, Structural, Debug)]
pub enum TIRStep {
    Free,
    Seed,
    Reputation,
}

impl Default for TIRStep {
    fn default() -> (r: TIRStep)
        ensures
            r == TIRStep::Free,
    {
        TIRStep::Free
    }
}

/// Approximate natural logarithm rounded to an integer, at most 8.
pub open spec fn spec_appro_ln(value: u32) -> u32 {
    if value < 3 {
        1
    } else if value < 8 {
        2
    } else if value < 21 {
        3
    } else if value < 55 {
        4
    } else if value < 149 {
        5
    } else if value < 404 {
        6
    } else if value < 1097 {
        7
    } else {
        8
    }
}

/// Returns the natural logarithm approximated to an integer, with a maximum of 8.
pub fn appro_ln(value: u32) -> (r: u32)
    ensures
        r == spec_appro_ln(value),
        1 <= r <= 8,
{
    if value < 3 {
        1
    } else if value < 8 {
        2
    } else if value < 21 {
        3
    } else if value < 55 {
        4
    } else if value < 149 {
        5
    } else if value < 404 {
        6
    } else if value < 1097 {
        7
    } else {
        8
    }
}

/// Whether a sweeper may collect when the last activity was at `last` and it is now `now`.
pub open spec fn spec_is_allowed_sweeper(last: u64, now: u64) -> bool {
    last + SWEEPER_PERIOD < now
}

/// The sweeper's part of `amount`, and what remains.
pub open spec fn spec_with_fee(amount: u128) -> (u128, u128) {
    let fee = spec_mul_floor(20_000_000, amount as int) as u128;
    (fee, (amount - fee) as u128)
}

/// Whether a sweeper is allowed to collect after `last` at `now`.
pub fn is_allowed_sweeper(last: u64, now: u64) -> (b: bool)
    ensures
        b == spec_is_allowed_sweeper(last, now),
{
    (last as u128) + (SWEEPER_PERIOD as u128) < now as u128
}

/// Splits `amount` into the sweeper's fee and the rest, unchecked.
pub fn with_fee(amount: u128) -> (r: (u128, u128))
    ensures
        r == spec_with_fee(amount),
        r.0 + r.1 == amount,
{
    let sweeper_fee = sweeper_pickup_ratio().mul_floor(amount);
    (sweeper_fee, amount - sweeper_fee)
}

/// Splits `amount` into the sweeper's fee and the rest, when a sweeper is allowed.
pub fn checked_with_fee(amount: u128, last: u64, now: u64) -> (r: Option<(u128, u128)>)
    ensures
        r == (if spec_is_allowed_sweeper(last, now) {
            Some(spec_with_fee(amount))
        } else {
            None
        }),
{
    if is_allowed_sweeper(last, now) {
        Some(with_fee(amount))
    } else {
        None
    }
}

/// The state of a challenge game.
#[derive(Clone, Copy, PartialEq, Eq, Structural, Debug)]
pub enum ChallengeStatus {
    Free,
    Examine,
    Reply,
    Evidence,
    Arbitral,
}

impl Default for ChallengeStatus {
    fn default() -> (r: ChallengeStatus)
        ensures
            r == ChallengeStatus::Examine,
    {
        ChallengeStatus::Examine
    }
}

/// The staked amounts and the earnings of a challenge game.
#[derive(Clone, Copy, PartialEq, Eq, Structural, Debug)]
pub struct Pool {
    pub staking: Balance,
    pub earnings: Balance,
}

/// Progress of an upload that may be resumed.
#[derive(Clone, Copy, PartialEq, Eq, Structural, Debug)]
pub struct Progress {
    pub total: u32,
    pub done: u32,
}

/// The metadata of a challenge game.
#[derive(Clone, Copy, PartialEq, Eq, Structural, Debug)]
pub struct Metadata {
    /// The pool of funds.
    pub pool: Pool,
    /// Whether the pathfinder and the challenger share the benefits.
    pub joint_benefits: bool,
    /// Progress of the upload.
    pub progress: Progress,
    /// The last update.
    pub last_update: BlockNumber,
    /// A note that the application uses for its own purposes.
    pub remark: u32,
    /// The current score.
    pub score: u64,
    /// The pathfinder.
    pub pathfinder: AccountId,
    /// The challenge state.
    pub status: ChallengeStatus,
    /// The challenger.
    pub challenger: AccountId,
}

/// The default metadata: everything zero and the status `Examine`.
pub open spec fn spec_default_metadata() -> Metadata {
    Metadata {
        pool: Pool { staking: 0, earnings: 0 },
        joint_benefits: false,
        progress: Progress { total: 0, done: 0 },
        last_update: 0,
        remark: 0,
        score: 0,
        pathfinder: 0,
        status: ChallengeStatus::Examine,
        challenger: 0,
    }
}

impl Default for Metadata {
    fn default() -> (r: Metadata)
        ensures
            r == spec_default_metadata(),
    {
        Metadata {
            pool: Pool { staking: 0, earnings: 0 },
            joint_benefits: false,
            progress: Progress { total: 0, done: 0 },
            last_update: 0,
            remark: 0,
            score: 0,
            pathfinder: 0,
            status: ChallengeStatus::Examine,
            challenger: 0,
        }
    }
}

/// The state after `restart(full_probative)`.
pub open spec fn spec_restart(m: Metadata, full_probative: bool) -> Metadata {
    Metadata {
        status: ChallengeStatus::Free,
        joint_benefits: false,
        pathfinder: if full_probative { m.challenger } else { m.pathfinder },
        ..m
    }
}

impl Metadata {
    /// The total of the pool, if it does not overflow.
    pub fn total_amount(&self) -> (r: Option<Balance>)
        ensures
            r == (if self.pool.staking + self.pool.earnings <= u128::MAX {
                Some((self.pool.staking + self.pool.earnings) as u128)
            } else {
                None
            }),
    {
        self.pool.staking.checked_add(self.pool.earnings)
    }

    /// Whether everything has been uploaded.
    pub fn is_all_done(&self) -> (b: bool)
        ensures
            b == (self.progress.total == self.progress.done),
    {
        self.progress.total == self.progress.done
    }

    /// Whether the progress has not gone past the total.
    pub fn check_progress(&self) -> (b: bool)
        ensures
            b == (self.progress.total >= self.progress.done),
    {
        self.progress.total >= self.progress.done
    }

    /// Whether `who` is the challenger.
    pub fn is_challenger(&self, who: &AccountId) -> (b: bool)
        ensures
            b == (self.challenger == *who),
    {
        self.challenger == *who
    }

    /// Whether `who` is the pathfinder.
    pub fn is_pathfinder(&self, who: &AccountId) -> (b: bool)
        ensures
            b == (self.pathfinder == *who),
    {
        self.pathfinder == *who
    }

    /// Resets the progress to zero out of `total`.
    pub fn new_progress(&mut self, total: u32)
        ensures
            *final(self) == (Metadata { progress: Progress { total, done: 0 }, ..*old(self) }),
    {
        self.progress = Progress { total, done: 0 };
    }

    /// Advances the progress by `count`, saturating.
    pub fn next(&mut self, count: u32)
        ensures
            *final(self) == (Metadata {
                progress: Progress {
                    total: old(self).progress.total,
                    done: if old(self).progress.done + count > u32::MAX {
                        u32::MAX
                    } else {
                        (old(self).progress.done + count) as u32
                    },
                },
                ..*old(self)
            }),
    {
        self.progress = Progress {
            total: self.progress.total,
            done: self.progress.done.saturating_add(count),
        };
    }

    /// Sets the challenge state to `status`.
    pub fn set_status(&mut self, status: &ChallengeStatus)
        ensures
            *final(self) == (Metadata { status: *status, ..*old(self) }),
    {
        self.status = *status;
    }

    /// Starts again: the state becomes `Free`, the benefits are no longer shared, and with
    /// `full_probative` the challenger becomes the pathfinder.
    pub fn restart(&mut self, full_probative: bool)
        ensures
            *final(self) == spec_restart(*old(self), full_probative),
    {
        self.status = ChallengeStatus::Free;
        self.joint_benefits = false;
        if full_probative {
            self.pathfinder = self.challenger;
        }
    }
}

} // verus!
