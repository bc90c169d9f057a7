//! Selecting seeds: the users with the highest betweenness centrality in the graph of trust
//! become seeds.
//!
//! Candidates are added with their scores and may be challenged; once the challenges are
//! harvested and the confirmation period has passed, the highest scores become seeds. The
//! game that settles a challenged score (examining the uploaded sums of scores, replying with
//! hashes, paths and numbers of shortest paths, and the evidence against them) is not part of
//! this library: the helper functions it rests on are not part of this code base, so only
//! its weights are here.
use crate::challenges::{after_upload, spec_launch_meta, with_meta, ChallengesModel};
use crate::primitives::{
    spec_default_metadata, AccountId, Balance, BlockNumber, ChallengeStatus, Metadata, Pool,
    Progress, TIRStep,
};
use crate::reputation::{spec_new_round, with_status, OperationStatus};
use crate::runtime::{Runtime, RuntimeConfig, RuntimeModel};
use crate::storage::{get_or, AppId, Duplicate, StorageMap};
use crate::system::{ensure_signed, DispatchError, Origin, RuntimeEvent};
use crate::currency::CurrencyModel;
use crate::ordered_set::{lemma_sorted_seq_of, sorted_seq_of};
use crate::primitives::{checked_with_fee, spec_is_allowed_sweeper, spec_with_fee};
use crate::refresh_seeds::scores::{
    ascending, copy_scores, highest_scores, lemma_lower_bound_first, lemma_remove_ascending,
    lower_bound, remove_score, top_scores,
};
use crate::tokens::{spec_release, spec_staking, TokensModel};
use vstd::prelude::*;

pub mod scores;
pub mod weights;

verus! {

/// The number of levels of the hash tree: it can hold `(16 * RANGE) ^ DEEP * n` paths.
pub const DEEP: u8 = 4;

/// The number of bytes of an order at each level.
pub const RANGE: usize = 2;

/// The largest number of shortest paths between two users that counts.
pub const MAX_SHORTEST_PATH: u32 = 100;

/// The largest number of hashes that may be uploaded: `16 ^ RANGE`.
pub const MAX_HASH_COUNT: u32 = 256;

/// The application under which challenges of seeds are kept: `b"seed    "`.
pub open spec fn spec_app_id() -> AppId {
    [115u8, 101u8, 101u8, 100u8, 32u8, 32u8, 32u8, 32u8]
}

/// The application under which challenges of seeds are kept.
pub fn app_id() -> (a: AppId)
    ensures
        a == spec_app_id(),
{
    [115u8, 101u8, 101u8, 100u8, 32u8, 32u8, 32u8, 32u8]
}

/// `256 ^ n`.
pub open spec fn pow256(n: nat) -> nat
    decreases n,
{
    if n == 0 {
        1
    } else {
        256 * pow256((n - 1) as nat)
    }
}

/// The number whose little-endian bytes are `s`.
pub open spec fn le_value(s: Seq<u8>) -> nat
    decreases s.len(),
{
    if s.len() == 0 {
        0
    } else {
        (s[0] + 256 * le_value(s.drop_first())) as nat
    }
}

/// The eight little-endian bytes of `x`.
pub open spec fn le_bytes(x: u64) -> Seq<u8> {
    Seq::new(8, |i: int| ((x as nat / pow256(i as nat)) % 256) as u8)
}

/// `n` zero bytes.
pub open spec fn zeros(n: nat) -> Seq<u8> {
    Seq::new(n, |i: int| 0u8)
}

/// `256 ^ n` grows with `n`.
pub proof fn lemma_pow256_mono(a: nat, b: nat)
    requires
        a <= b,
    ensures
        1 <= pow256(a) <= pow256(b),
    decreases b,
{
    if b == 0 {
    } else if a == b {
        lemma_pow256_mono(0, (b - 1) as nat);
    } else {
        lemma_pow256_mono(a, (b - 1) as nat);
    }
}

/// The value of `s` is below `256 ^ |s|`.
pub proof fn lemma_le_value_bound(s: Seq<u8>)
    ensures
        le_value(s) < pow256(s.len()),
    decreases s.len(),
{
    if s.len() > 0 {
        lemma_le_value_bound(s.drop_first());
    }
}

/// Trailing zero bytes do not change the value.
pub proof fn lemma_le_value_zeros(s: Seq<u8>, n: nat)
    ensures
        le_value(s + zeros(n)) == le_value(s),
    decreases s.len() + n,
{
    if s.len() == 0 {
        if n > 0 {
            assert((s + zeros(n)).drop_first() =~= Seq::<u8>::empty() + zeros((n - 1) as nat));
            lemma_le_value_zeros(Seq::<u8>::empty(), (n - 1) as nat);
        }
        assert(s + zeros(n) =~= Seq::<u8>::empty() + zeros(n));
    } else {
        assert((s + zeros(n)).drop_first() =~= s.drop_first() + zeros(n));
        lemma_le_value_zeros(s.drop_first(), n);
    }
}

/// The `j`-th byte of the value of `p` is `p[j]`.
pub proof fn lemma_le_value_byte(p: Seq<u8>, j: nat)
    requires
        j < p.len(),
    ensures
        (le_value(p) / pow256(j)) % 256 == p[j as int],
    decreases j,
{
    let l = le_value(p.drop_first());
    let p0 = p[0] as int;
    let x = le_value(p);
    assert(x == p0 + 256 * l);
    if j == 0 {
        assert(pow256(0) == 1);
        assert(x / 1 == x);
        assert((p0 + 256 * l) % 256 == p0) by (nonlinear_arith)
            requires
                0 <= p0 < 256,
                l >= 0,
        ;
    } else {
        lemma_le_value_byte(p.drop_first(), (j - 1) as nat);
        lemma_pow256_mono(0, (j - 1) as nat);
        assert((p0 + 256 * l) / 256 == l) by (nonlinear_arith)
            requires
                0 <= p0 < 256,
                l >= 0,
        ;
        vstd::arithmetic::div_mod::lemma_div_denominator(x as int, 256, pow256((j - 1) as nat) as int);
        assert(pow256(j) == 256 * pow256((j - 1) as nat));
        assert(x / pow256(j) == l / pow256((j - 1) as nat));
        assert(p.drop_first()[j - 1] == p[j as int]);
    }
}

/// The full order of a challenged score: the bytes of the orders at each level so far.
#[derive(Clone, PartialEq, Eq, Debug)]
pub struct FullOrder(pub Vec<u8>);

impl FullOrder {
    /// Converts to a `u64`, the form in which challenges keep it: the bytes, padded with zeros
    /// to eight, are read in little-endian order. The order is padded in place. `None` when it
    /// holds more than eight bytes.
    pub fn try_to_u64(&mut self) -> (r: Option<u64>)
        ensures
            old(self).0@.len() > 8 ==> r is None && final(self).0@ == old(self).0@,
            old(self).0@.len() <= 8 ==> final(self).0@ == old(self).0@ + zeros((8 - old(self).0@.len()) as nat)
                && r == Some(le_value(old(self).0@) as u64),
    {
        let len = self.0.len();
        if len > 8 {
            return None;
        }
        let ghost s0 = self.0@;
        while self.0.len() < 8
            invariant
                len == s0.len(),
                len <= 8,
                self.0@.len() <= 8,
                self.0@.len() >= len,
                self.0@ == s0 + zeros((self.0@.len() - len) as nat),
            decreases 8 - self.0@.len(),
        {
            self.0.push(0u8);
            assert(self.0@ =~= s0 + zeros((self.0@.len() - len) as nat));
        }
        let ghost s = self.0@;
        let mut v: u64 = 0;
        let mut i: usize = 8;
        proof {
            assert(s.subrange(8, 8) =~= Seq::<u8>::empty());
        }
        while i > 0
            invariant
                s == self.0@,
                s.len() == 8,
                0 <= i <= 8,
                v as nat == le_value(s.subrange(i as int, 8)),
            decreases i,
        {
            i = i - 1;
            proof {
                assert(s.subrange(i as int, 8).drop_first() =~= s.subrange(i + 1, 8));
                lemma_le_value_bound(s.subrange(i + 1, 8));
                lemma_pow256_mono((8 - (i + 1)) as nat, 7);
                assert(pow256(7) == 72057594037927936) by {
                    reveal_with_fuel(pow256, 8);
                }
            }
            v = v * 256 + (self.0[i] as u64);
        }
        proof {
            assert(s.subrange(0, 8) =~= s);
            lemma_le_value_zeros(s0, (8 - len) as nat);
        }
        Some(v)
    }

    /// The order at `deep` levels held by `from`: its first `(deep - 1) * RANGE`
    /// little-endian bytes, or all eight when that is more than ten.
    pub fn from_u64(from: &u64, deep: usize) -> (r: FullOrder)
        requires
            deep <= 1 || (deep - 1) * RANGE <= usize::MAX,
            !(deep > 1 && 8 < (deep - 1) * RANGE <= 10),
        ensures
            deep <= 1 ==> r.0@ == Seq::<u8>::empty(),
            deep > 1 && (deep - 1) * RANGE > 10 ==> r.0@ == le_bytes(*from),
            deep > 1 && (deep - 1) * RANGE <= 8 ==> r.0@ == le_bytes(*from).subrange(0, (deep - 1) * RANGE),
    {
        if deep <= 1 {
            return FullOrder(Vec::new());
        }
        let len = (deep - 1) * RANGE;
        let mut bytes: Vec<u8> = Vec::new();
        let mut y: u64 = *from;
        let mut i: usize = 0;
        assert(pow256(0) == 1);
        assert(*from as nat / 1 == *from as nat);
        assert(bytes@ =~= le_bytes(*from).subrange(0, 0));
        while i < 8
            invariant
                0 <= i <= 8,
                y as nat == *from as nat / pow256(i as nat),
                bytes@ == le_bytes(*from).subrange(0, i as int),
            decreases 8 - i,
        {
            proof {
                lemma_pow256_mono(0, i as nat);
                vstd::arithmetic::div_mod::lemma_div_denominator(*from as int, pow256(i as nat) as int, 256);
                assert(pow256((i + 1) as nat) == pow256(i as nat) * 256);
            }
            bytes.push((y % 256) as u8);
            y = y / 256;
            assert(bytes@ =~= le_bytes(*from).subrange(0, i + 1));
            i = i + 1;
        }
        assert(bytes@ =~= le_bytes(*from));
        if len > 10 {
            FullOrder(bytes)
        } else {
            let mut v: Vec<u8> = Vec::new();
            let mut j: usize = 0;
            while j < len
                invariant
                    len <= 8,
                    0 <= j <= len,
                    bytes@ == le_bytes(*from),
                    v@ == le_bytes(*from).subrange(0, j as int),
                decreases len - j,
            {
                v.push(bytes[j]);
                assert(v@ =~= le_bytes(*from).subrange(0, j + 1));
                j = j + 1;
            }
            FullOrder(v)
        }
    }

    /// Appends the first `RANGE` bytes of `order`.
    pub fn connect(&mut self, order: &[u8])
        requires
            order@.len() >= RANGE,
        ensures
            final(self).0@ == old(self).0@ + order@.subrange(0, RANGE as int),
    {
        self.0.push(order[0]);
        self.0.push(order[1]);
        assert(self.0@ =~= old(self).0@ + order@.subrange(0, RANGE as int));
    }

    /// Appends the first `RANGE` bytes of `order` and converts the result to a `u64`.
    pub fn connect_to_u64(&mut self, order: &[u8]) -> (r: Option<u64>)
        requires
            order@.len() >= RANGE,
        ensures
            ({
                let s = old(self).0@ + order@.subrange(0, RANGE as int);
                &&& s.len() > 8 ==> r is None && final(self).0@ == s
                &&& s.len() <= 8 ==> final(self).0@ == s + zeros((8 - s.len()) as nat) && r == Some(
                    le_value(s) as u64,
                )
            }),
    {
        self.connect(order);
        self.try_to_u64()
    }
}

/// Reading back the order from the `u64` that `try_to_u64` made gives the order again, when
/// it holds `(deep - 1) * RANGE` bytes, at most eight.
pub proof fn law_from_u64_undoes_try_to_u64(s: Seq<u8>, deep: nat)
    requires
        deep > 1,
        s.len() == (deep - 1) * RANGE,
        s.len() <= 8,
    ensures
        le_value(s) < pow256(8),
        le_bytes(le_value(s) as u64).subrange(0, s.len() as int) == s,
{
    let p = s + zeros((8 - s.len()) as nat);
    lemma_le_value_zeros(s, (8 - s.len()) as nat);
    lemma_le_value_bound(p);
    assert(pow256(8) == 18446744073709551616) by {
        reveal_with_fuel(pow256, 9);
    }
    let x = le_value(s) as u64;
    assert forall|j: int| 0 <= j < s.len() implies le_bytes(x)[j] == s[j] by {
        lemma_le_value_byte(p, j as nat);
        assert(p[j] == s[j]);
    }
    assert(le_bytes(x).subrange(0, s.len() as int) =~= s);
}


/// A candidate for a seed.
#[derive(Clone, Copy, PartialEq, Eq, Structural, PartialOrd, Ord, Debug)]
pub struct Candidate {
    /// The betweenness centrality score.
    pub score: u64,
    /// The pathfinder who submitted the candidate.
    pub pathfinder: AccountId,
    /// Whether the score has been challenged.
    pub has_challenge: bool,
    /// The block in which the candidate was added.
    pub add_at: BlockNumber,
}

/// A sum of scores as a user submits it: the order at this level and the score.
#[derive(Clone, Copy, PartialEq, Eq, PartialOrd, Ord, Debug)]
pub struct PostResultHash(pub [u8; RANGE], pub u64);

/// The order and the sum of the scores at one level of the hash tree. Two of them are equal
/// when their orders are.
#[derive(Clone, Copy, Debug)]
pub struct ResultHash {
    pub order: [u8; RANGE],
    pub score: u64,
}

impl PartialEq for ResultHash {
    fn eq(&self, other: &Self) -> (r: bool) {
        self.order[0] == other.order[0] && self.order[1] == other.order[1]
    }
}

impl vstd::std_specs::cmp::PartialEqSpecImpl for ResultHash {
    open spec fn obeys_eq_spec() -> bool {
        true
    }

    open spec fn eq_spec(&self, other: &Self) -> bool {
        self.order[0] == other.order[0] && self.order[1] == other.order[1]
    }
}

impl Eq for ResultHash {
}

impl PostResultHash {
    /// The sum in the form in which it is kept.
    pub fn to_result_hash(&self) -> (r: ResultHash)
        ensures
            r.order == self.0,
            r.score == self.1,
    {
        ResultHash { order: self.0, score: self.1 }
    }
}

/// A shortest path and the number of shortest paths between its two end points.
#[derive(Clone, PartialEq, Eq, PartialOrd, Ord, Debug)]
pub struct Path {
    pub nodes: Vec<AccountId>,
    pub total: u32,
}

/// The constants of the pallet.
#[derive(Clone, Copy, PartialEq, Eq, Structural, Debug)]
pub struct Config {
    /// The amount staked to add a candidate: `seed_challenge_amount + seed_reserv_staking`.
    pub seed_staking_amount: Balance,
    /// The part of the stake that goes into a challenge of the candidate.
    pub seed_challenge_amount: Balance,
    /// The part of the stake that challenges do not touch; it is returned when the seed is
    /// harvested.
    pub seed_reserv_staking: Balance,
    /// The largest number of seeds.
    pub max_seed_count: u32,
    /// After this many blocks a candidate is confirmed.
    pub confirmation_period: BlockNumber,
}

/// Errors of the pallet.
#[derive(Clone, Copy, PartialEq, Eq, Structural, Debug)]
pub enum Error {
    /// Already exists.
    AlreadyExist,
    /// No candidate exists.
    NoCandidateExists,
    /// No corresponding data exists.
    NotExist,
    /// Depth limit exceeded.
    DepthLimitExceeded,
    /// Overflow.
    Overflow,
    /// Index exceeds maximum.
    IndexExceedsMaximum,
    /// Quantity exceeds limit.
    QuantityExceedsLimit,
    /// Already exists.
    AlreadyExists,
    /// Non-existent.
    NonExistent,
    /// Path vector is empty.
    NoPath,
    /// Certain data do not match.
    NotMatch,
    /// The path is too long.
    PathTooLong,
    /// Path length limit exceeded.
    ExceededLengthLimit,
    /// Depth not yet reached.
    DepthDoesNotMatch,
    /// Path lengths are not equal.
    LengthNotEqual,
    /// The data at this index position does not match.
    PathIndexError,
    /// Too few in number.
    TooFewInNumber,
    /// Path length too long or not short enough.
    WrongPathLength,
    /// There are still unharvested challenges.
    StillUnharvestedChallenges,
    /// Score list is not empty.
    ScoreListEmpty,
    /// Step does not match.
    StepNotMatch,
    /// Path does not exist.
    PathDoesNotExist,
    /// The path is too short.
    PathTooShort,
    /// Order does not match.
    OrderNotMatch,
    /// An error occurred converting the data.
    ConverError,
    /// Data is empty, cannot call next.
    DataEmpty,
    /// No duplicate data allowed.
    DataDuplication,
    /// Excessive number of paths.
    LengthTooLong,
    /// Hash mismatch.
    HashMismatch,
    /// Score mismatch.
    ScoreMismatch,
    /// ResultHash does not exist.
    ResultHashNotExit,
    /// Unconfirmed data still available.
    StillUnconfirmed,
    /// Time not yet reached or overflow.
    SweeprtFail,
    /// Seed has been confirmed and is unchallengeable.
    SeedAlreadyConfirmed,
    /// No target node found.
    NoTargetNode,
    /// Maximum depth has been reached.
    MaximumDepth,
    /// Missed paths do not exist.
    MissedPathsNotExist,
    /// Path uploaded, no hash challenge allowed.
    PathUploaded,
    /// No path exists to challenge.
    NoPathExists,
    /// Candidate does not exist or has been harvested.
    CandidateNotExist,
}

/// Events of the pallet.
#[derive(Clone, Copy, PartialEq, Eq, Structural, Debug)]
pub enum Event {
    /// A new round of seed selection started \[who\].
    RefershSeedStared(AccountId),
    /// A new candidate \[pathfinder, candidate, score\].
    NewCandidate(AccountId, AccountId, u64),
    /// A new challenge \[challenger, candidate\].
    NewChallenge(AccountId, AccountId),
    /// A new examination \[challenger, candidate\].
    NewExamine(AccountId, AccountId),
    /// Hashes were replied \[pathfinder, candidate, quantity, completed\].
    RepliedHash(AccountId, AccountId, u32, bool),
    /// More hashes were replied \[pathfinder, candidate, completed\].
    ContinueRepliedHash(AccountId, AccountId, bool),
    /// Paths were replied \[pathfinder, candidate, quantity, completed\].
    RepliedPath(AccountId, AccountId, u32, bool),
    /// More paths were replied \[pathfinder, candidate, completed\].
    ContinueRepliedPath(AccountId, AccountId, bool),
    /// The number of shortest paths between two users was replied \[pathfinder, candidate\].
    RepliedNum(AccountId, AccountId),
    /// A missed shortest path was presented \[challenger, candidate, index\].
    MissedPathPresented(AccountId, AccountId, u32),
    /// A shorter path was presented \[challenger, candidate, index\].
    ShorterPresented(AccountId, AccountId, u32),
    /// Evidence that a number of shortest paths is too low \[challenger, candidate, index\].
    EvidenceOfNumTooLowPresented(AccountId, AccountId, u32),
    /// Evidence was shown to be invalid \[challenger, candidate, score\].
    EvidenceOfInvalidPresented(AccountId, AccountId, u64),
    /// Challenge earnings were harvested \[who, candidate\].
    ChallengeHarvested(AccountId, AccountId),
    /// Seed earnings were harvested \[who, candidate\].
    SeedHarvested(AccountId, AccountId),
    /// A challenge started again \[candidate, score\].
    ChallengeRestarted(AccountId, u64),
    /// All seeds have been selected \[number\].
    SeedsSelected(u32),
}

/// What contracts see of the pallet's storage.
#[verifier::ext_equal]
pub struct SeedsRefreshModel {
    /// The candidates.
    pub candidates: Map<AccountId, Candidate>,
    /// The valid centrality scores.
    pub score_list: Seq<u64>,
    /// Whether all seeds have been confirmed.
    pub seeds_confirmed: bool,
}

/// The storage of the pallet.
pub struct Pallet {
    pub config: Config,
    pub candidates: StorageMap<AccountId, Candidate>,
    pub score_list: Vec<u64>,
    pub seeds_confirmed: bool,
}

/// Succeeds when the system is selecting seeds.
pub open spec fn spec_check_step(w: RuntimeModel) -> Result<(), DispatchError> {
    if w.reputation.system_info.step == TIRStep::Seed {
        Ok(())
    } else {
        Err(DispatchError::RefreshSeeds(Error::StepNotMatch))
    }
}

/// The runtime after the caller of `origin` starts a new round, which moves the system to the
/// selection of seeds; or the error.
pub open spec fn spec_start(w: RuntimeModel, origin: Origin) -> Result<RuntimeModel, DispatchError> {
    match origin {
        Origin::Signed(who) => match spec_new_round(w.reputation, w.block_number) {
            Err(e) => Err(e),
            Ok(r) => Ok(
                RuntimeModel {
                    reputation: with_status(r, OperationStatus { step: TIRStep::Seed, ..r.system_info }),
                    events: w.events.push(RuntimeEvent::RefreshSeeds(Event::RefershSeedStared(who))),
                    ..w
                },
            ),
        },
        _ => Err(DispatchError::BadOrigin),
    }
}

/// The runtime after the pathfinder of `origin` stakes and adds `target` as a candidate with
/// the centrality score `score`; or the error.
pub open spec fn spec_add(w: RuntimeModel, c: RuntimeConfig, origin: Origin, target: AccountId, score: u64) -> Result<
    RuntimeModel,
    DispatchError,
> {
    match origin {
        Origin::Signed(pathfinder) => {
            if spec_check_step(w) is Err {
                Err(DispatchError::RefreshSeeds(Error::StepNotMatch))
            } else if w.refresh_seeds.candidates.contains_key(target) {
                Err(DispatchError::RefreshSeeds(Error::AlreadyExist))
            } else {
                match spec_staking(
                    w.tokens,
                    w.currency,
                    c.tokens.social_pool,
                    pathfinder,
                    c.refresh_seeds.seed_staking_amount,
                ) {
                    Err(e) => Err(e),
                    Ok((t, cu)) => Ok(
                        RuntimeModel {
                            tokens: t,
                            currency: cu,
                            refresh_seeds: SeedsRefreshModel {
                                candidates: w.refresh_seeds.candidates.insert(
                                    target,
                                    Candidate { score, pathfinder, has_challenge: false, add_at: w.block_number },
                                ),
                                ..w.refresh_seeds
                            },
                            reputation: with_status(
                                w.reputation,
                                OperationStatus { last: w.block_number, ..w.reputation.system_info },
                            ),
                            events: w.events.push(RuntimeEvent::RefreshSeeds(Event::NewCandidate(pathfinder, target, score))),
                            ..w
                        },
                    ),
                }
            }
        },
        _ => Err(DispatchError::BadOrigin),
    }
}

/// The challenge of the score of `cand` that `challenger` launches with the score `score`;
/// the part of the candidate's stake that goes into challenges joins the pool the first time.
pub open spec fn spec_seed_challenge_meta(cand: Candidate, challenger: AccountId, staking: Balance, score: u64) -> Metadata {
    Metadata {
        challenger,
        pathfinder: cand.pathfinder,
        pool: Pool { staking, earnings: 0 },
        score,
        ..spec_default_metadata()
    }
}

/// The runtime after the caller of `origin` challenges the score of the candidate `target`,
/// claiming `score`; or the error.
pub open spec fn spec_challenge(w: RuntimeModel, c: RuntimeConfig, origin: Origin, target: AccountId, score: u64) -> Result<
    RuntimeModel,
    DispatchError,
> {
    match origin {
        Origin::Signed(challenger) => {
            if spec_check_step(w) is Err {
                Err(DispatchError::RefreshSeeds(Error::StepNotMatch))
            } else if !w.refresh_seeds.candidates.contains_key(target) {
                Err(DispatchError::RefreshSeeds(Error::NoCandidateExists))
            } else {
                let cand = w.refresh_seeds.candidates[target];
                let staking = if cand.has_challenge {
                    0
                } else {
                    c.refresh_seeds.seed_challenge_amount
                };
                let app = spec_app_id();
                if !cand.has_challenge && !(cand.add_at + c.refresh_seeds.confirmation_period > w.block_number) {
                    Err(DispatchError::RefreshSeeds(Error::SeedAlreadyConfirmed))
                } else {
                    let meta = spec_seed_challenge_meta(cand, challenger, staking, score);
                    match spec_launch_meta(w.challenges, c.challenges, app, target, meta, w.block_number) {
                        Err(e) => Err(e),
                        Ok(m) => match spec_staking(
                            w.tokens,
                            w.currency,
                            c.tokens.social_pool,
                            challenger,
                            c.challenges.challenge_staking_amount,
                        ) {
                            Err(e) => Err(e),
                            Ok((t, cu)) => Ok(
                                RuntimeModel {
                                    challenges: after_upload(with_meta(w.challenges, app, target, m), app, w.block_number),
                                    tokens: t,
                                    currency: cu,
                                    refresh_seeds: SeedsRefreshModel {
                                        candidates: w.refresh_seeds.candidates.insert(
                                            target,
                                            Candidate { has_challenge: true, ..cand },
                                        ),
                                        ..w.refresh_seeds
                                    },
                                    reputation: with_status(
                                        w.reputation,
                                        OperationStatus { last: w.block_number, ..w.reputation.system_info },
                                    ),
                                    events: w.events.push(
                                        RuntimeEvent::Challenges(
                                            crate::challenges::Event::Challenged(challenger, target, cand.pathfinder, 0),
                                        ),
                                    ).push(RuntimeEvent::RefreshSeeds(Event::NewChallenge(challenger, target))),
                                    ..w
                                },
                            ),
                        },
                    }
                }
            }
        },
        _ => Err(DispatchError::BadOrigin),
    }
}

/// Whether the confirmation period has passed since the system was last active, so that
/// every candidate is confirmed.
pub open spec fn spec_is_all_timeout(w: RuntimeModel, c: RuntimeConfig) -> bool {
    w.reputation.system_info.last + c.refresh_seeds.confirmation_period < w.block_number
}

/// The scores that make a candidate a seed: those kept once the seeds are confirmed; before,
/// the `max_seed_count` highest scores of the candidates, in ascending order.
pub open spec fn spec_seed_scores(w: RuntimeModel, c: RuntimeConfig) -> Seq<u64> {
    if w.refresh_seeds.seeds_confirmed {
        w.refresh_seeds.score_list
    } else {
        top_scores(w.refresh_seeds.candidates, c.refresh_seeds.max_seed_count as nat)
    }
}

/// Pays `total` out of the stakes for the harvest of a candidate found by `pathfinder`: all
/// of it to the pathfinder when it harvests itself; else, when a sweeper may collect after
/// `last` at `now`, the sweeper `who` takes its fee and the pathfinder the rest.
pub open spec fn spec_pay_seed(
    t: TokensModel,
    cu: CurrencyModel,
    pool: AccountId,
    who: AccountId,
    pathfinder: AccountId,
    total: Balance,
    last: BlockNumber,
    now: BlockNumber,
) -> Result<(TokensModel, CurrencyModel), DispatchError> {
    if who != pathfinder {
        if !spec_is_allowed_sweeper(last, now) {
            Err(DispatchError::RefreshSeeds(Error::SweeprtFail))
        } else {
            let (fee, rest) = spec_with_fee(total);
            match spec_release(t, cu, pool, who, fee) {
                Err(e) => Err(e),
                Ok((t1, c1)) => spec_release(t1, c1, pool, pathfinder, rest),
            }
        }
    } else {
        spec_release(t, cu, pool, pathfinder, total)
    }
}

/// The runtime after the caller of `origin` harvests the candidate `target`; or the error.
///
/// The first harvest of a round selects the seeds: every challenge must have been harvested
/// and the confirmation period must have passed. A candidate whose score is among the
/// selected ones becomes a seed and takes an equal part of the bonus; its stake (the part
/// that challenges leave) goes back to its pathfinder, less a sweeper's fee when someone
/// else harvests. The last harvest ends the selection of seeds.
pub open spec fn spec_harvest_seed(w: RuntimeModel, c: RuntimeConfig, origin: Origin, target: AccountId) -> Result<
    RuntimeModel,
    DispatchError,
> {
    match origin {
        Origin::Signed(who) => {
            let first = !w.refresh_seeds.seeds_confirmed;
            if spec_check_step(w) is Err {
                Err(DispatchError::RefreshSeeds(Error::StepNotMatch))
            } else if first && !crate::challenges::spec_is_all_harvest(w.challenges, spec_app_id()) {
                Err(DispatchError::RefreshSeeds(Error::StillUnharvestedChallenges))
            } else if first && !spec_is_all_timeout(w, c) {
                Err(DispatchError::RefreshSeeds(Error::StillUnconfirmed))
            } else if !w.refresh_seeds.candidates.contains_key(target) {
                Err(DispatchError::RefreshSeeds(Error::CandidateNotExist))
            } else {
                let list = spec_seed_scores(w, c);
                let cand = w.refresh_seeds.candidates[target];
                let staking_amount = if cand.has_challenge {
                    c.refresh_seeds.seed_reserv_staking
                } else {
                    c.refresh_seeds.seed_staking_amount
                };
                let selected = list.contains(cand.score);
                let bonus: u128 = if selected {
                    (w.tokens.bonus / (list.len() as u128)) as u128
                } else {
                    0
                };
                if bonus + staking_amount > u128::MAX {
                    Err(DispatchError::RefreshSeeds(Error::Overflow))
                } else {
                    match spec_pay_seed(
                        w.tokens,
                        w.currency,
                        c.tokens.social_pool,
                        who,
                        cand.pathfinder,
                        (bonus + staking_amount) as u128,
                        w.reputation.system_info.last,
                        w.block_number,
                    ) {
                        Err(e) => Err(e),
                        Ok((t, cu)) => {
                            let ev0 = if first {
                                w.events.push(RuntimeEvent::RefreshSeeds(Event::SeedsSelected(list.len() as u32)))
                            } else {
                                w.events
                            };
                            let ev1 = if selected {
                                ev0.push(RuntimeEvent::Seeds(crate::seeds::Event::SeedAdded(target)))
                            } else {
                                ev0
                            };
                            let candidates = w.refresh_seeds.candidates.remove(target);
                            let done = candidates.len() == 0;
                            Ok(
                                RuntimeModel {
                                    tokens: TokensModel { bonus: (t.bonus - bonus) as u128, ..t },
                                    currency: cu,
                                    seeds: if selected {
                                        sorted_seq_of(w.seeds.to_set().insert(target))
                                    } else {
                                        w.seeds
                                    },
                                    reputation: if done {
                                        with_status(
                                            w.reputation,
                                            OperationStatus { step: TIRStep::Reputation, ..w.reputation.system_info },
                                        )
                                    } else {
                                        w.reputation
                                    },
                                    refresh_seeds: SeedsRefreshModel {
                                        candidates,
                                        score_list: if selected {
                                            remove_score(list, cand.score)
                                        } else {
                                            list
                                        },
                                        seeds_confirmed: !done,
                                    },
                                    events: ev1.push(RuntimeEvent::RefreshSeeds(Event::SeedHarvested(who, target))),
                                    ..w
                                },
                            )
                        },
                    }
                }
            }
        },
        _ => Err(DispatchError::BadOrigin),
    }
}

/// A round of seed selection starts only from a free system, and leaves it selecting seeds
/// with a new round number.
pub proof fn law_start_begins_selection(w: RuntimeModel, origin: Origin)
    requires
        spec_start(w, origin) is Ok,
        w.reputation.system_info.nonce < u32::MAX,
    ensures
        w.reputation.system_info.step == TIRStep::Free,
        spec_start(w, origin)->Ok_0.reputation.system_info.step == TIRStep::Seed,
        spec_start(w, origin)->Ok_0.reputation.system_info.nonce == w.reputation.system_info.nonce + 1,
{
}

/// A candidate can be added only once.
pub proof fn law_add_twice(
    w: RuntimeModel,
    c: RuntimeConfig,
    origin: Origin,
    target: AccountId,
    score: u64,
    who: AccountId,
    score2: u64,
)
    requires
        spec_add(w, c, origin, target, score) is Ok,
    ensures
        spec_add(spec_add(w, c, origin, target, score)->Ok_0, c, Origin::Signed(who), target, score2) == Err::<
            RuntimeModel,
            DispatchError,
        >(DispatchError::RefreshSeeds(Error::AlreadyExist)),
{
}

/// Adding a candidate records its block as the system's last activity.
pub proof fn law_add_records_activity(w: RuntimeModel, c: RuntimeConfig, origin: Origin, target: AccountId, score: u64)
    requires
        spec_add(w, c, origin, target, score) is Ok,
    ensures
        ({
            let w2 = spec_add(w, c, origin, target, score)->Ok_0;
            &&& w2.refresh_seeds.candidates.contains_key(target)
            &&& w2.refresh_seeds.candidates[target].add_at == w2.reputation.system_info.last
        }),
{
}

/// When the confirmation period has passed since the last activity, it has passed for every
/// candidate added no later than that activity: one that was never challenged can no longer be.
pub proof fn law_all_timeout_confirms_candidates(
    w: RuntimeModel,
    c: RuntimeConfig,
    challenger: AccountId,
    target: AccountId,
    score: u64,
)
    requires
        spec_is_all_timeout(w, c),
        w.refresh_seeds.candidates.contains_key(target),
        w.refresh_seeds.candidates[target].add_at <= w.reputation.system_info.last,
    ensures
        w.refresh_seeds.candidates[target].add_at + c.refresh_seeds.confirmation_period < w.block_number,
        !w.refresh_seeds.candidates[target].has_challenge ==> spec_challenge(
            w,
            c,
            Origin::Signed(challenger),
            target,
            score,
        ) is Err,
{
}

/// A harvested candidate is gone, so that it cannot be harvested twice.
pub proof fn law_harvest_seed_removes_candidate(w: RuntimeModel, c: RuntimeConfig, origin: Origin, target: AccountId)
    requires
        spec_harvest_seed(w, c, origin, target) is Ok,
    ensures
        !spec_harvest_seed(w, c, origin, target)->Ok_0.refresh_seeds.candidates.contains_key(target),
        spec_harvest_seed(spec_harvest_seed(w, c, origin, target)->Ok_0, c, origin, target) is Err,
{
}

/// The seeds that a round selects are at most `max_seed_count`: the scores that the first
/// harvest selects, and those left after any harvest.
pub proof fn law_harvest_seed_selects_at_most_max(w: RuntimeModel, c: RuntimeConfig, origin: Origin, target: AccountId)
    requires
        spec_harvest_seed(w, c, origin, target) is Ok,
        !w.refresh_seeds.seeds_confirmed,
    ensures
        spec_seed_scores(w, c).len() <= c.refresh_seeds.max_seed_count,
        spec_harvest_seed(w, c, origin, target)->Ok_0.refresh_seeds.score_list.len() <= c.refresh_seeds.max_seed_count,
{
    let list = spec_seed_scores(w, c);
    let score = w.refresh_seeds.candidates[target].score;
    if list.contains(score) {
        crate::refresh_seeds::scores::lemma_first_index(list, score);
    }
}

/// The harvest of a candidate pays out exactly its stake and its part of the bonus: the
/// total staked drops by both, the bonus by its part, and no value is made or destroyed.
pub proof fn law_harvest_seed_pays_the_stake(w: RuntimeModel, c: RuntimeConfig, origin: Origin, target: AccountId)
    requires
        spec_harvest_seed(w, c, origin, target) is Ok,
        w.refresh_seeds.score_list.len() <= usize::MAX,
    ensures
        ({
            let w2 = spec_harvest_seed(w, c, origin, target)->Ok_0;
            let list = spec_seed_scores(w, c);
            let cand = w.refresh_seeds.candidates[target];
            let staking_amount = if cand.has_challenge {
                c.refresh_seeds.seed_reserv_staking
            } else {
                c.refresh_seeds.seed_staking_amount
            };
            let bonus: u128 = if list.contains(cand.score) {
                (w.tokens.bonus / (list.len() as u128)) as u128
            } else {
                0
            };
            &&& w2.tokens.total_staking == w.tokens.total_staking - bonus - staking_amount
            &&& w2.tokens.bonus == w.tokens.bonus - bonus
            &&& w2.currency.total_issuance == w.currency.total_issuance
        }),
{
    let list = spec_seed_scores(w, c);
    let cand = w.refresh_seeds.candidates[target];
    let staking_amount = if cand.has_challenge {
        c.refresh_seeds.seed_reserv_staking
    } else {
        c.refresh_seeds.seed_staking_amount
    };
    let bonus: u128 = if list.contains(cand.score) {
        (w.tokens.bonus / (list.len() as u128)) as u128
    } else {
        0
    };
    let total = (bonus + staking_amount) as u128;
    if list.contains(cand.score) {
        assert(list.len() > 0);
        assert(list.len() <= usize::MAX || list.len() <= c.refresh_seeds.max_seed_count);
        let b = w.tokens.bonus;
        let n = list.len() as u128;
        assert(n as int == list.len());
        assert(b / n <= b) by (nonlinear_arith)
            requires
                n >= 1,
        ;
    }
    let f = crate::perbill::spec_mul_floor(20_000_000, total as int);
    assert(0 <= f <= total) by (nonlinear_arith)
        requires
            f == (total * 20_000_000) / 1_000_000_000int,
            total >= 0,
    ;
}

/// The harvest of the last candidate ends the selection of seeds: the system moves on to
/// refreshing reputations, and the next round selects again.
pub proof fn law_last_harvest_ends_selection(w: RuntimeModel, c: RuntimeConfig, origin: Origin, target: AccountId)
    requires
        spec_harvest_seed(w, c, origin, target) is Ok,
        w.refresh_seeds.candidates.remove(target).len() == 0,
    ensures
        spec_harvest_seed(w, c, origin, target)->Ok_0.reputation.system_info.step == TIRStep::Reputation,
        !spec_harvest_seed(w, c, origin, target)->Ok_0.refresh_seeds.seeds_confirmed,
        spec_harvest_seed(w, c, origin, target)->Ok_0.refresh_seeds.candidates.len() == 0,
{
}

impl Pallet {
    /// What contracts see of the storage.
    pub open spec fn view(&self) -> SeedsRefreshModel {
        SeedsRefreshModel {
            candidates: self.candidates@,
            score_list: self.score_list@,
            seeds_confirmed: self.seeds_confirmed,
        }
    }

    /// Empty storage with the given constants.
    pub fn new(config: Config) -> (p: Pallet)
        ensures
            p.config == config,
            p@.candidates == Map::<AccountId, Candidate>::empty(),
            p@.score_list == Seq::<u64>::empty(),
            !p@.seeds_confirmed,
    {
        Pallet { config, candidates: StorageMap::new(), score_list: Vec::new(), seeds_confirmed: false }
    }

    /// The candidate `who`, if any.
    pub fn get_candidate(&self, who: &AccountId) -> (r: Option<Candidate>)
        ensures
            r == (if self@.candidates.contains_key(*who) {
                Some(self@.candidates[*who])
            } else {
                None
            }),
    {
        match self.candidates.get(who) {
            Some(c) => Some(*c),
            None => None,
        }
    }

    /// Whether all seeds have been confirmed.
    pub fn seeds_confirmed(&self) -> (b: bool)
        ensures
            b == self@.seeds_confirmed,
    {
        self.seeds_confirmed
    }

    /// Succeeds when the system is selecting seeds (the step `Seed`, which `start` sets);
    /// refused with `StepNotMatch` otherwise.
    pub fn check_step(rep: &crate::reputation::Pallet) -> (r: Result<(), DispatchError>)
        ensures
            r == (if rep@.system_info.step == TIRStep::Seed {
                Ok::<(), DispatchError>(())
            } else {
                Err(DispatchError::RefreshSeeds(Error::StepNotMatch))
            }),
    {
        if !rep.is_step(&TIRStep::Seed) {
            return Err(DispatchError::RefreshSeeds(Error::StepNotMatch));
        }
        Ok(())
    }

    /// Adds `target` as a candidate with the score `score`, found by `pathfinder` at `now`.
    pub fn candidate_insert(&mut self, target: &AccountId, pathfinder: &AccountId, score: &u64, now: BlockNumber)
        ensures
            final(self).config == old(self).config,
            final(self)@ == (SeedsRefreshModel {
                candidates: old(self)@.candidates.insert(
                    *target,
                    Candidate { score: *score, pathfinder: *pathfinder, has_challenge: false, add_at: now },
                ),
                ..old(self)@
            }),
    {
        self.candidates.insert(
            *target,
            Candidate { score: *score, pathfinder: *pathfinder, has_challenge: false, add_at: now },
        );
    }

    /// Starts a new round and moves the system to the selection of seeds.
    pub fn start(rt: &mut Runtime, origin: Origin) -> (r: Result<(), DispatchError>)
        requires
            old(rt).reputation@.system_info.nonce < u32::MAX,
            old(rt).system.block_number + old(rt).reputation@.system_info.period <= u64::MAX,
        ensures
            final(rt).config() == old(rt).config(),
            final(rt).trust == old(rt).trust,
            final(rt).seeds == old(rt).seeds,
            match spec_start(old(rt)@, origin) {
                Ok(w) => r is Ok && final(rt)@ == w,
                Err(e) => r == Err::<(), DispatchError>(e) && final(rt)@ == old(rt)@,
            },
    {
        let who = ensure_signed(origin)?;
        let now = rt.system.block_number();
        rt.reputation.new_round(now)?;
        rt.reputation.set_step(&TIRStep::Seed);
        rt.system.deposit_event(RuntimeEvent::RefreshSeeds(Event::RefershSeedStared(who)));
        assert(rt@ =~= spec_start(old(rt)@, origin)->Ok_0);
        Ok(())
    }

    /// Adds `target` as a candidate for a seed with the centrality score `score`; the caller
    /// stakes the seed staking amount.
    pub fn add(rt: &mut Runtime, origin: Origin, target: AccountId, score: u64) -> (r: Result<(), DispatchError>)
        ensures
            final(rt).config() == old(rt).config(),
            final(rt).trust == old(rt).trust,
            final(rt).seeds == old(rt).seeds,
            match spec_add(old(rt)@, old(rt).config(), origin, target, score) {
                Ok(w) => r is Ok && final(rt)@ == w,
                Err(e) => r == Err::<(), DispatchError>(e) && final(rt)@ == old(rt)@,
            },
    {
        let pathfinder = ensure_signed(origin)?;
        Self::check_step(&rt.reputation)?;
        if rt.refresh_seeds.candidates.contains_key(&target) {
            return Err(DispatchError::RefreshSeeds(Error::AlreadyExist));
        }
        let amount = rt.refresh_seeds.config.seed_staking_amount;
        rt.tokens.staking(&mut rt.currency, &pathfinder, &amount)?;
        let now = rt.system.block_number();
        rt.refresh_seeds.candidate_insert(&target, &pathfinder, &score, now);
        rt.reputation.set_last_refresh_at(now);
        rt.system.deposit_event(RuntimeEvent::RefreshSeeds(Event::NewCandidate(pathfinder, target, score)));
        assert(rt@ =~= spec_add(old(rt)@, old(rt).config(), origin, target, score)->Ok_0);
        Ok(())
    }

    /// Challenges the score of the candidate `target`, claiming `score`.
    ///
    /// Refused when the candidate does not exist, or when it has not been challenged before
    /// and is past its confirmation period.
    pub fn challenge(rt: &mut Runtime, origin: Origin, target: AccountId, score: u64) -> (r: Result<
        (),
        DispatchError,
    >)
        ensures
            final(rt).config() == old(rt).config(),
            final(rt).trust == old(rt).trust,
            final(rt).seeds == old(rt).seeds,
            match spec_challenge(old(rt)@, old(rt).config(), origin, target, score) {
                Ok(w) => r is Ok && final(rt)@ == w,
                Err(e) => r == Err::<(), DispatchError>(e) && final(rt)@ == old(rt)@,
            },
    {
        let challenger = ensure_signed(origin)?;
        Self::check_step(&rt.reputation)?;
        let candidate = match rt.refresh_seeds.get_candidate(&target) {
            Some(c) => c,
            None => {
                return Err(DispatchError::RefreshSeeds(Error::NoCandidateExists));
            },
        };
        let staking = if candidate.has_challenge {
            0
        } else {
            rt.refresh_seeds.config.seed_challenge_amount
        };
        let now = rt.system.block_number();
        if !candidate.has_challenge {
            if !((candidate.add_at as u128) + (rt.refresh_seeds.config.confirmation_period as u128) > (now as u128)) {
                return Err(DispatchError::RefreshSeeds(Error::SeedAlreadyConfirmed));
            }
        }
        let meta = Metadata {
            pool: Pool { staking, earnings: 0 },
            joint_benefits: false,
            progress: Progress { total: 0, done: 0 },
            last_update: 0,
            remark: 0,
            score,
            pathfinder: candidate.pathfinder,
            status: ChallengeStatus::Examine,
            challenger,
        };
        let app = app_id();
        rt.challenges.launch(&mut rt.tokens, &mut rt.currency, &mut rt.system, &app, &target, &meta)?;
        rt.refresh_seeds.candidates.insert(target, Candidate { has_challenge: true, ..candidate });
        rt.reputation.set_last_refresh_at(now);
        rt.system.deposit_event(RuntimeEvent::RefreshSeeds(Event::NewChallenge(challenger, target)));
        assert(rt@ =~= spec_challenge(old(rt)@, old(rt).config(), origin, target, score)->Ok_0);
        Ok(())
    }

    /// Whether every candidate is confirmed at `now`: the confirmation period has passed since
    /// the system was last active. Adding a candidate records its block as the last activity,
    /// so the period has then passed for every candidate too; see
    /// `law_add_records_activity` and `law_all_timeout_confirms_candidates`.
    pub fn is_all_timeout(&self, rep: &crate::reputation::Pallet, now: BlockNumber) -> (b: bool)
        ensures
            b == (rep@.system_info.last + self.config.confirmation_period < now),
    {
        (rep.get_last_refresh_at() as u128) + (self.config.confirmation_period as u128) < (now as u128)
    }

    /// Selects the seeds when the first candidate of a round is harvested: `score_list`
    /// becomes the `max_seed_count` highest scores of the candidates (all of them when there
    /// are fewer), in ascending order, each as often as candidates hold it.
    pub fn hand_first_time(&self, score_list: &mut Vec<u64>)
        ensures
            final(score_list)@ == top_scores(self@.candidates, self.config.max_seed_count as nat),
            ascending(final(score_list)@),
            final(score_list)@.len() <= self.config.max_seed_count,
    {
        *score_list = highest_scores(&self.candidates, self.config.max_seed_count);
    }

    /// Whether every candidate has been harvested: none is left.
    pub fn is_all_harvest(&self) -> (b: bool)
        ensures
            b == (self@.candidates.len() == 0),
    {
        self.candidates.len() == 0
    }

    /// Harvests the candidate `target`: a candidate whose score is among the selected ones
    /// becomes a seed and takes its part of the bonus, and the stake goes back to its
    /// pathfinder, less a sweeper's fee when someone else harvests.
    ///
    /// Refused while challenges remain unharvested or the confirmation period has not
    /// passed. The first harvest of a round selects the seeds: the `max_seed_count` highest
    /// scores; when two candidates share the lowest selected score, the first to be harvested
    /// is the one confirmed.
    #[verifier::spinoff_prover]
    #[verifier::rlimit(40)]
    pub fn harvest_seed(rt: &mut Runtime, origin: Origin, target: AccountId) -> (r: Result<(), DispatchError>)
        requires
            ascending(old(rt)@.refresh_seeds.score_list),
            old(rt).seeds.wf(),
        ensures
            final(rt).config() == old(rt).config(),
            final(rt).trust == old(rt).trust,
            final(rt).seeds.wf(),
            ascending(final(rt)@.refresh_seeds.score_list),
            match spec_harvest_seed(old(rt)@, old(rt).config(), origin, target) {
                Ok(w) => r is Ok && final(rt)@ == w,
                Err(e) => r == Err::<(), DispatchError>(e) && final(rt)@ == old(rt)@,
            },
    {
        let who = ensure_signed(origin)?;
        Self::check_step(&rt.reputation)?;
        let now = rt.system.block_number();
        let confirmed = rt.refresh_seeds.seeds_confirmed();
        let mut score_list = copy_scores(&rt.refresh_seeds.score_list);
        if !confirmed {
            let app = app_id();
            if !rt.challenges.is_all_harvest(&app) {
                return Err(DispatchError::RefreshSeeds(Error::StillUnharvestedChallenges));
            }
            if !rt.refresh_seeds.is_all_timeout(&rt.reputation, now) {
                return Err(DispatchError::RefreshSeeds(Error::StillUnconfirmed));
            }
            rt.refresh_seeds.hand_first_time(&mut score_list);
        }
        let ghost list = score_list@;
        assert(list == spec_seed_scores(old(rt)@, old(rt).config()));
        let len = score_list.len();
        let candidate = match rt.refresh_seeds.get_candidate(&target) {
            Some(c) => c,
            None => {
                return Err(DispatchError::RefreshSeeds(Error::CandidateNotExist));
            },
        };
        let staking_amount = if candidate.has_challenge {
            rt.refresh_seeds.config.seed_reserv_staking
        } else {
            rt.refresh_seeds.config.seed_staking_amount
        };
        let maybe_index: Option<usize> = if len > 0 && candidate.score >= score_list[0] {
            let i = lower_bound(&score_list, candidate.score);
            proof {
                lemma_lower_bound_first(list, candidate.score, i as int);
            }
            if i < len && score_list[i] == candidate.score {
                Some(i)
            } else {
                None
            }
        } else {
            proof {
                if list.contains(candidate.score) {
                    let k = choose|k: int| 0 <= k < list.len() && list[k] == candidate.score;
                    assert(list[0] <= list[k]);
                }
            }
            None
        };
        assert(maybe_index is Some <==> list.contains(candidate.score));
        let bonus: Balance = match maybe_index {
            Some(_) => rt.tokens.get_bonus_amount() / (len as u128),
            None => 0,
        };
        if bonus > u128::MAX - staking_amount {
            return Err(DispatchError::RefreshSeeds(Error::Overflow));
        }
        let total_amount = bonus + staking_amount;
        let pathfinder = candidate.pathfinder;
        if who != pathfinder {
            let last = rt.reputation.get_last_refresh_at();
            let (s_amount, p_amount) = match checked_with_fee(total_amount, last, now) {
                Some(v) => v,
                None => {
                    return Err(DispatchError::RefreshSeeds(Error::SweeprtFail));
                },
            };
            let saved_tokens = rt.tokens.duplicate();
            let saved_currency = rt.currency.duplicate();
            rt.tokens.release(&mut rt.currency, &who, &s_amount)?;
            match rt.tokens.release(&mut rt.currency, &pathfinder, &p_amount) {
                Ok(_) => {},
                Err(e) => {
                    rt.tokens = saved_tokens;
                    rt.currency = saved_currency;
                    assert(rt@ =~= old(rt)@);
                    return Err(e);
                },
            }
        } else {
            rt.tokens.release(&mut rt.currency, &pathfinder, &total_amount)?;
        }
        let cut = rt.tokens.cut_bonus(&bonus);
        assert(cut is Ok);
        if !confirmed {
            rt.system.deposit_event(RuntimeEvent::RefreshSeeds(Event::SeedsSelected(len as u32)));
        }
        match maybe_index {
            Some(index) => {
                rt.seeds.add_seed(&mut rt.system, &target);
                proof {
                    lemma_sorted_seq_of(rt.seeds@);
                    lemma_remove_ascending(list, index as int);
                }
                score_list.remove(index);
            },
            None => {},
        }
        let _ = rt.refresh_seeds.candidates.remove(&target);
        if rt.refresh_seeds.is_all_harvest() {
            rt.refresh_seeds.seeds_confirmed = false;
            rt.reputation.set_step(&TIRStep::Reputation);
        } else if !confirmed {
            rt.refresh_seeds.seeds_confirmed = true;
        }
        rt.system.deposit_event(RuntimeEvent::RefreshSeeds(Event::SeedHarvested(who, target)));
        rt.refresh_seeds.score_list = score_list;
        assert(rt@ =~= spec_harvest_seed(old(rt)@, old(rt).config(), origin, target)->Ok_0);
        Ok(())
    }

}

} // verus!
