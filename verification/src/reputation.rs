//! The reputation system's state: rounds of updates and the reputation of each user.
use crate::primitives::{AccountId, BlockNumber, TIRStep};
use crate::runtime::Runtime;
use crate::storage::{Duplicate, StorageMap};
use crate::system::{ensure_root, DispatchError, Origin, RuntimeEvent};
use vstd::prelude::*;

verus! {

/// Maximum number of seeds.
pub const MAX_SEED: usize = 500;

/// The reputation that a seed starts with.
pub const INIT_SEED_RANK: usize = 1000;

/// The state of the whole reputation system.
#[derive(Clone, Copy, PartialEq, Eq, Structural, Debug)]
pub struct OperationStatus {
    /// Increases by one with every round of updates.
    pub nonce: u32,
    /// The last block in which the system was active.
    pub last: BlockNumber,
    /// The next round starts at this block at the earliest.
    pub next: BlockNumber,
    /// The least interval between the starts of two rounds.
    pub period: BlockNumber,
    /// Whether the system is updating, and in which step.
    pub step: TIRStep,
}

/// A reputation value and the round in which it was set.
#[derive(Clone, Copy, PartialEq, Eq, Structural, Debug)]
pub struct ReputationScore {
    /// The reputation value.
    pub score: u32,
    /// The round in which the value was set.
    pub nonce: u32,
}

/// The two latest reputation values of a user.
pub type Scores = [ReputationScore; 2];

impl Duplicate for [ReputationScore; 2] {
    fn duplicate(&self) -> (r: Self) {
        *self
    }
}

/// Errors of the pallet.
#[derive(Clone, Copy, PartialEq, Eq, Structural, Debug)]
pub enum Error {
    /// Too short an interval.
    IntervalIsTooShort,
    /// Already in the process of being updated.
    AlreadyInUpdating,
    /// Setting disabled during reputation update.
    UnableToSetPeriod,
    /// Reputation already updated.
    ReputationAlreadyUpdated,
    /// The challenge is not over yet.
    ChallengeNotOverYet,
    /// Too short an interval between renewal periods.
    TooShortAnInterval,
}

/// Events of the pallet.
#[derive(Clone, Copy, PartialEq, Eq, Structural, Debug)]
pub enum Event {
    /// The period was updated \[period\].
    UpdatedPeriod(BlockNumber),
}

/// The initial state of the pallet.
pub struct GenesisConfig {
    pub period: BlockNumber,
}

/// What contracts see of the pallet's storage.
#[verifier::ext_equal]
pub struct ReputationModel {
    pub system_info: OperationStatus,
    pub scores: Map<AccountId, Scores>,
}

/// The storage of the pallet.
pub struct Pallet {
    pub system_info: OperationStatus,
    pub reputation_scores: StorageMap<AccountId, Scores>,
}

/// A reputation of zero set in round zero.
pub open spec fn zero_score() -> ReputationScore {
    ReputationScore { score: 0, nonce: 0 }
}

/// The latest reputation of `who`.
pub open spec fn latest_of(r: ReputationModel, who: AccountId) -> ReputationScore {
    if r.scores.contains_key(who) {
        r.scores[who][0]
    } else {
        zero_score()
    }
}

/// The previous reputation of `who`.
pub open spec fn previous_of(r: ReputationModel, who: AccountId) -> ReputationScore {
    if r.scores.contains_key(who) {
        r.scores[who][1]
    } else {
        zero_score()
    }
}

/// `r` where `who` has the reputations `a` (latest) and `b` (previous).
pub open spec fn with_scores(r: ReputationModel, who: AccountId, a: ReputationScore, b: ReputationScore) -> ReputationModel {
    ReputationModel {
        scores: r.scores.insert(who, [a, b]),
        ..r
    }
}

/// `r` with its operation status replaced.
pub open spec fn with_status(r: ReputationModel, s: OperationStatus) -> ReputationModel {
    ReputationModel { system_info: s, ..r }
}

/// The reputation of `who` in the latest round, or, while updating, possibly a value that is
/// not yet confirmed.
pub open spec fn spec_reputation_new(r: ReputationModel, who: AccountId) -> Option<u32> {
    let n = r.system_info.nonce;
    if latest_of(r, who).nonce == n {
        Some(latest_of(r, who).score)
    } else if previous_of(r, who).nonce == n {
        Some(previous_of(r, who).score)
    } else {
        None
    }
}

/// The latest confirmed reputation of `who`.
pub open spec fn spec_reputation(r: ReputationModel, who: AccountId) -> Option<u32> {
    let n = r.system_info.nonce;
    if r.system_info.step == TIRStep::Free {
        if latest_of(r, who).nonce == n {
            Some(latest_of(r, who).score)
        } else {
            None
        }
    } else if latest_of(r, who).nonce == n - 1 {
        Some(latest_of(r, who).score)
    } else if previous_of(r, who).nonce == n - 1 {
        Some(previous_of(r, who).score)
    } else {
        None
    }
}

/// The pallet after a new round starts at `now`, or the error.
pub open spec fn spec_new_round(r: ReputationModel, now: BlockNumber) -> Result<ReputationModel, DispatchError> {
    let s = r.system_info;
    if s.step != TIRStep::Free {
        Err(DispatchError::Reputation(Error::AlreadyInUpdating))
    } else if now < s.next {
        Err(DispatchError::Reputation(Error::IntervalIsTooShort))
    } else {
        Ok(
            with_status(
                r,
                OperationStatus {
                    nonce: (s.nonce + 1) as u32,
                    next: (now + s.period) as u64,
                    last: now,
                    step: TIRStep::Free,
                    period: s.period,
                },
            ),
        )
    }
}

/// The pallet after `who` is refreshed to `score`, or the error.
pub open spec fn spec_refresh_reputation(r: ReputationModel, who: AccountId, score: u32) -> Result<
    ReputationModel,
    DispatchError,
> {
    let n = r.system_info.nonce;
    if latest_of(r, who).nonce >= n {
        Err(DispatchError::Reputation(Error::ReputationAlreadyUpdated))
    } else {
        Ok(with_scores(r, who, ReputationScore { nonce: n, score }, latest_of(r, who)))
    }
}

/// The pallet after the latest reputation of `target` is set to `ir` directly.
pub open spec fn spec_mutate_reputation(r: ReputationModel, target: AccountId, ir: u32) -> ReputationModel {
    with_scores(r, target, ReputationScore { score: ir, ..latest_of(r, target) }, previous_of(r, target))
}

/// The pallet after the update ends at `now`.
pub open spec fn spec_set_free(r: ReputationModel, now: BlockNumber) -> ReputationModel {
    if r.system_info.step == TIRStep::Free {
        r
    } else {
        with_status(r, OperationStatus { last: now, step: TIRStep::Free, ..r.system_info })
    }
}

/// What a refresh writes is what a read of the round gives back, and a reputation is refreshed
/// at most once per round.
pub proof fn law_refresh_then_read(r: ReputationModel, who: AccountId, score: u32, score2: u32)
    requires
        spec_refresh_reputation(r, who, score) is Ok,
    ensures
        ({
            let r2 = spec_refresh_reputation(r, who, score)->Ok_0;
            &&& spec_reputation_new(r2, who) == Some(score)
            &&& spec_refresh_reputation(r2, who, score2) == Err::<ReputationModel, DispatchError>(
                DispatchError::Reputation(Error::ReputationAlreadyUpdated),
            )
        }),
{
}

/// A round cannot start while the system is updating, nor again before its period has passed.
pub proof fn law_new_round_twice(r: ReputationModel, now: BlockNumber, later: BlockNumber)
    requires
        spec_new_round(r, now) is Ok,
        now + r.system_info.period <= u64::MAX,
        later < now + r.system_info.period,
    ensures
        r.system_info.step == TIRStep::Free,
        spec_new_round(spec_new_round(r, now)->Ok_0, later) == Err::<ReputationModel, DispatchError>(
            DispatchError::Reputation(Error::IntervalIsTooShort),
        ),
        spec_new_round(with_status(r, OperationStatus { step: TIRStep::Seed, ..r.system_info }), now)
            == Err::<ReputationModel, DispatchError>(DispatchError::Reputation(Error::AlreadyInUpdating)),
{
}

impl Pallet {
    /// What contracts see of the storage.
    pub open spec fn view(&self) -> ReputationModel {
        ReputationModel { system_info: self.system_info, scores: self.reputation_scores@ }
    }

    /// Whether `nonce - 1` is defined whenever the system is updating.
    pub open spec fn nonce_ok(&self) -> bool {
        self.system_info.step == TIRStep::Free || self.system_info.nonce >= 1
    }

    /// The initial state: round zero, free, with the given period.
    pub fn genesis(config: &GenesisConfig) -> (p: Pallet)
        ensures
            p@.system_info == (OperationStatus {
                nonce: 0,
                last: 0,
                next: 0,
                period: config.period,
                step: TIRStep::Free,
            }),
            p@.scores == Map::<AccountId, Scores>::empty(),
    {
        let mut p = Pallet {
            system_info: OperationStatus { nonce: 0, last: 0, next: 0, period: 0, step: TIRStep::Free },
            reputation_scores: StorageMap::new(),
        };
        let r = p.do_set_period(config.period);
        assert(r is Ok);
        p
    }

    /// A copy of the storage.
    pub fn duplicate(&self) -> (p: Pallet)
        ensures
            p@ == self@,
    {
        Pallet { system_info: self.system_info, reputation_scores: self.reputation_scores.duplicate() }
    }

    /// The state of the system.
    pub fn system_info(&self) -> (s: OperationStatus)
        ensures
            s == self@.system_info,
    {
        self.system_info
    }

    /// The two latest reputations of `who`.
    pub fn get_ir(&self, who: &AccountId) -> (r: Scores)
        ensures
            r[0] == latest_of(self@, *who),
            r[1] == previous_of(self@, *who),
    {
        match self.reputation_scores.get(who) {
            Some(s) => *s,
            None => [ReputationScore { score: 0, nonce: 0 }, ReputationScore { score: 0, nonce: 0 }],
        }
    }

    /// Records `now` as the last active block.
    pub fn set_last_refresh(&mut self, now: BlockNumber)
        ensures
            final(self)@ == with_status(old(self)@, OperationStatus { last: now, ..old(self)@.system_info }),
    {
        self.system_info = OperationStatus { last: now, ..self.system_info };
    }

    /// Sets the period, when the system is not updating.
    pub fn do_set_period(&mut self, period: BlockNumber) -> (r: Result<(), DispatchError>)
        ensures
            old(self)@.system_info.step == TIRStep::Free ==> r is Ok && final(self)@ == with_status(
                old(self)@,
                OperationStatus { period, ..old(self)@.system_info },
            ),
            old(self)@.system_info.step != TIRStep::Free ==> r == Err::<(), DispatchError>(
                DispatchError::Reputation(Error::UnableToSetPeriod),
            ) && final(self)@ == old(self)@,
    {
        if self.system_info.step != TIRStep::Free {
            return Err(DispatchError::Reputation(Error::UnableToSetPeriod));
        }
        self.system_info = OperationStatus { period, ..self.system_info };
        Ok(())
    }

    /// Sets the latest reputation value of `target` directly.
    pub fn mutate_reputation(&mut self, target: &AccountId, ir: &u32)
        ensures
            final(self)@ == spec_mutate_reputation(old(self)@, *target, *ir),
    {
        let s = self.get_ir(target);
        let a = ReputationScore { score: *ir, nonce: s[0].nonce };
        self.reputation_scores.insert(*target, [a, s[1]]);
    }

    /// Sets the step of the system.
    pub fn set_step(&mut self, step: &TIRStep)
        ensures
            final(self)@ == with_status(old(self)@, OperationStatus { step: *step, ..old(self)@.system_info }),
    {
        self.system_info = OperationStatus { step: *step, ..self.system_info };
    }

    /// Whether the system is in `step`.
    pub fn is_step(&self, step: &TIRStep) -> (b: bool)
        ensures
            b == (*step == self@.system_info.step),
    {
        *step == self.system_info.step
    }

    /// Starts a new round at `now`: the round number grows and the next round may start one
    /// period later; the system stays free until a pallet moves it to its step.
    pub fn new_round(&mut self, now: BlockNumber) -> (r: Result<(), DispatchError>)
        requires
            old(self)@.system_info.nonce < u32::MAX,
            now + old(self)@.system_info.period <= u64::MAX,
        ensures
            match spec_new_round(old(self)@, now) {
                Ok(m) => r is Ok && final(self)@ == m,
                Err(e) => r == Err::<(), DispatchError>(e) && final(self)@ == old(self)@,
            },
    {
        if self.system_info.step != TIRStep::Free {
            return Err(DispatchError::Reputation(Error::AlreadyInUpdating));
        }
        if now < self.system_info.next {
            return Err(DispatchError::Reputation(Error::IntervalIsTooShort));
        }
        let s = self.system_info;
        self.system_info = OperationStatus {
            nonce: s.nonce + 1,
            next: now + s.period,
            last: now,
            step: TIRStep::Free,
            period: s.period,
        };
        Ok(())
    }

    /// The reputation of `target` in the latest round, possibly not yet confirmed.
    pub fn get_reputation_new(&self, target: &AccountId) -> (r: Option<u32>)
        ensures
            r == spec_reputation_new(self@, *target),
    {
        let new_nonce = self.system_info.nonce;
        let irs = self.get_ir(target);
        if irs[0].nonce == new_nonce {
            Some(irs[0].score)
        } else if irs[1].nonce == new_nonce {
            Some(irs[1].score)
        } else {
            None
        }
    }

    /// The latest confirmed reputation of `target`.
    pub fn get_reputation(&self, target: &AccountId) -> (r: Option<u32>)
        requires
            self.nonce_ok(),
        ensures
            r == spec_reputation(self@, *target),
    {
        let nonce = self.system_info.nonce;
        let irs = self.get_ir(target);
        if self.system_info.step == TIRStep::Free {
            if irs[0].nonce == nonce {
                return Some(irs[0].score);
            }
        } else {
            if irs[0].nonce == nonce - 1 {
                return Some(irs[0].score);
            } else if irs[1].nonce == nonce - 1 {
                return Some(irs[1].score);
            }
        }
        None
    }

    /// Refreshes the reputation of `user_score.0` to `user_score.1`, once per round.
    pub fn refresh_reputation(&mut self, user_score: &(AccountId, u32)) -> (r: Result<(), DispatchError>)
        ensures
            match spec_refresh_reputation(old(self)@, user_score.0, user_score.1) {
                Ok(m) => r is Ok && final(self)@ == m,
                Err(e) => r == Err::<(), DispatchError>(e) && final(self)@ == old(self)@,
            },
    {
        let who = user_score.0;
        let nonce = self.system_info.nonce;
        let irs = self.get_ir(&who);
        if irs[0].nonce >= nonce {
            return Err(DispatchError::Reputation(Error::ReputationAlreadyUpdated));
        }
        self.reputation_scores.insert(who, [ReputationScore { nonce, score: user_score.1 }, irs[0]]);
        Ok(())
    }

    /// The last block in which the system was active.
    pub fn get_last_refresh_at(&self) -> (b: BlockNumber)
        ensures
            b == self@.system_info.last,
    {
        self.system_info.last
    }

    /// Records `now` as the last active block.
    pub fn set_last_refresh_at(&mut self, now: BlockNumber)
        ensures
            final(self)@ == with_status(old(self)@, OperationStatus { last: now, ..old(self)@.system_info }),
    {
        self.set_last_refresh(now);
    }

    /// Ends the update at `now`: the system becomes free.
    pub fn set_free(&mut self, now: BlockNumber)
        ensures
            final(self)@ == spec_set_free(old(self)@, now),
            old(self)@.system_info.step == TIRStep::Free ==> final(self)@ == old(self)@,
            old(self)@.system_info.step != TIRStep::Free ==> final(self)@ == with_status(
                old(self)@,
                OperationStatus { last: now, step: TIRStep::Free, ..old(self)@.system_info },
            ),
    {
        if self.system_info.step == TIRStep::Free {
            return;
        }
        self.system_info = OperationStatus { last: now, step: TIRStep::Free, ..self.system_info };
    }

    /// Sets the interval between the starts of two rounds to `period` blocks.
    ///
    /// Requires the root origin.
    pub fn set_period(rt: &mut Runtime, origin: Origin, period: BlockNumber) -> (r: Result<(), DispatchError>)
        ensures
            final(rt).same_except_reputation(*old(rt)),
            origin != Origin::Root ==> r == Err::<(), DispatchError>(DispatchError::BadOrigin)
                && final(rt).unchanged(*old(rt)),
            origin == Origin::Root && old(rt).reputation@.system_info.step != TIRStep::Free ==> r
                == Err::<(), DispatchError>(DispatchError::Reputation(Error::UnableToSetPeriod))
                && final(rt).unchanged(*old(rt)),
            origin == Origin::Root && old(rt).reputation@.system_info.step == TIRStep::Free ==> r is Ok
                && final(rt).reputation@ == with_status(
                old(rt).reputation@,
                OperationStatus { period, ..old(rt).reputation@.system_info },
            ) && final(rt).system.events@ == old(rt).system.events@.push(
                RuntimeEvent::Reputation(Event::UpdatedPeriod(period)),
            ),
    {
        ensure_root(origin)?;
        rt.reputation.do_set_period(period)?;
        rt.system.deposit_event(RuntimeEvent::Reputation(Event::UpdatedPeriod(period)));
        Ok(())
    }
}

} // verus!
