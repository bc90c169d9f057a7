//! Trust relations between users, and the reputation passed along a path of trust.
use crate::ordered_set::{lemma_sorted_seq_of, sorted, sorted_seq_of, OrderedSet};
use crate::perbill::{spec_mul_floor, Perbill, BILLION};
use crate::primitives::{appro_ln, spec_appro_ln, AccountId, TIRStep};
use crate::reputation::{spec_reputation, ReputationModel};
use crate::runtime::Runtime;
use crate::storage::StorageMap;
use crate::system::{ensure_signed, DispatchError, Origin, RuntimeEvent};
use vstd::prelude::*;

pub mod weights;

verus! {

/// The reputation that a seed passes on.
pub const INIT_SEED_RANK: u32 = 1000;

/// A score is divided by at least this many trusted users.
pub const MIN_TRUST_COUNT: u32 = 5;

/// Changes to a user's trust list since the current update started: `trust` holds the users
/// that were trusted at the start and are no longer, `untrust` those that were not trusted
/// at the start and are now.
#[derive(PartialEq, Eq, Debug)]
pub struct TrustTemp {
    pub trust: OrderedSet,
    pub untrust: OrderedSet,
}

impl TrustTemp {
    /// No changes.
    pub fn new() -> (t: TrustTemp)
        ensures
            t.trust@ == Seq::<AccountId>::empty(),
            t.untrust@ == Seq::<AccountId>::empty(),
    {
        TrustTemp { trust: OrderedSet::new(), untrust: OrderedSet::new() }
    }
}

/// The constants of the pallet.
#[derive(Clone, Copy, PartialEq, Eq, Structural, Debug)]
pub struct Config {
    /// How much of a score passes on at each step of a path.
    pub damping_factor: Perbill,
    /// The largest number of users that one user may trust.
    pub max_trust_count: u32,
}

/// Errors of the pallet.
#[derive(Clone, Copy, PartialEq, Eq, Structural, Debug)]
pub enum Error {
    /// Unable to trust yourself.
    UnableTrustYourself,
    /// Already trusted this user.
    RepeatTrust,
    /// Unable to untrust yourself.
    UnableUntrustYourself,
    /// No target user exists.
    NonExistent,
    /// Wrong path.
    WrongPath,
    /// This is not a seeded user.
    NotSeed,
    /// Exceeding the maximum number of trust limits.
    TooMuchTrust,
}

/// Events of the pallet.
#[derive(Clone, Copy, PartialEq, Eq, Structural, Debug)]
pub enum Event {
    /// A user trusted another user \[who, target\].
    Trusted(AccountId, AccountId),
    /// A user untrusted another user \[who, target\].
    Untrusted(AccountId, AccountId),
}

/// What contracts see of the pallet's storage: for every user the set it trusts and the
/// changes since the update started.
#[verifier::ext_equal]
pub struct TrustModel {
    pub lists: Map<AccountId, Set<AccountId>>,
    pub temp_trust: Map<AccountId, Set<AccountId>>,
    pub temp_untrust: Map<AccountId, Set<AccountId>>,
}

/// The storage of the pallet.
pub struct Pallet {
    pub config: Config,
    pub trusted_list: StorageMap<AccountId, OrderedSet>,
    pub trust_temp_list: StorageMap<AccountId, TrustTemp>,
}

/// Whether `who` trusted `target` when the update started.
pub open spec fn spec_is_trust_old(t: TrustModel, who: AccountId, target: AccountId) -> bool {
    t.temp_trust[who].contains(target) || (t.lists[who].contains(target) && !t.temp_untrust[who].contains(
        target,
    ))
}

/// The number of users that `who` trusted when the update started.
pub open spec fn spec_count_old(t: TrustModel, who: AccountId) -> int {
    t.lists[who].len() + t.temp_trust[who].len() - t.temp_untrust[who].len()
}

/// `a - b` for 32-bit values, saturating.
pub open spec fn sat_sub_u32(a: u32, b: u32) -> u32 {
    if a < b {
        0
    } else {
        (a - b) as u32
    }
}

/// `a + b` for 32-bit values, saturating.
pub open spec fn sat_add_u32(a: u32, b: u32) -> u32 {
    if a + b > u32::MAX {
        u32::MAX
    } else {
        (a + b) as u32
    }
}

/// The distance and the score after the steps of `users` from position `k` on, where the
/// reputation reached so far is `start_ir`, the distance `dist` and the score `score`.
pub open spec fn spec_path_steps(
    t: TrustModel,
    rep: ReputationModel,
    damping: u32,
    users: Seq<AccountId>,
    k: int,
    start_ir: u32,
    dist: u32,
    score: u32,
) -> Result<(u32, u32), DispatchError>
    decreases users.len() - k,
{
    if k < 0 || k + 1 >= users.len() {
        Ok((dist, score))
    } else if !t.lists[users[k]].contains(users[k + 1]) {
        Err(DispatchError::Trust(Error::WrongPath))
    } else {
        let end_ir = match spec_reputation(rep, users[k + 1]) {
            Some(v) => v,
            None => 0u32,
        };
        let item_dist = spec_appro_ln(sat_sub_u32(start_ir, end_ir));
        let trust_count = spec_count_old(t, users[k]) as u32;
        let divisor = if trust_count < MIN_TRUST_COUNT {
            MIN_TRUST_COUNT
        } else {
            trust_count
        };
        let item_score = ((spec_mul_floor(damping, score as int) / (divisor as int)) / (item_dist as int)) as u32;
        spec_path_steps(t, rep, damping, users, k + 1, end_ir, sat_add_u32(dist, item_dist), item_score)
    }
}

/// The total distance of the path `users` from a seed, and the score it passes to its last
/// user; or the error.
pub open spec fn spec_computed_path(
    t: TrustModel,
    seeds: Seq<AccountId>,
    rep: ReputationModel,
    damping: u32,
    users: Seq<AccountId>,
) -> Result<(u32, u32), DispatchError> {
    if !seeds.contains(users[0]) {
        Err(DispatchError::Trust(Error::NotSeed))
    } else {
        spec_path_steps(t, rep, damping, users, 0, INIT_SEED_RANK, 0, INIT_SEED_RANK)
    }
}

/// The pallet after `who` trusts `target`, or the error. `free` tells whether the system is
/// outside an update.
pub open spec fn spec_do_trust(t: TrustModel, free: bool, max: u32, who: AccountId, target: AccountId) -> Result<
    TrustModel,
    DispatchError,
> {
    if who == target {
        Err(DispatchError::Trust(Error::UnableTrustYourself))
    } else if t.lists[who].len() as u32 >= max {
        Err(DispatchError::Trust(Error::TooMuchTrust))
    } else if t.lists[who].contains(target) {
        Err(DispatchError::Trust(Error::RepeatTrust))
    } else {
        let t1 = TrustModel { lists: t.lists.insert(who, t.lists[who].insert(target)), ..t };
        if free {
            Ok(t1)
        } else if t.temp_trust[who].contains(target) {
            Ok(TrustModel { temp_trust: t.temp_trust.insert(who, t.temp_trust[who].remove(target)), ..t1 })
        } else {
            Ok(
                TrustModel {
                    temp_untrust: t.temp_untrust.insert(who, t.temp_untrust[who].insert(target)),
                    ..t1
                },
            )
        }
    }
}

/// The pallet after `who` stops trusting `target`, or the error.
pub open spec fn spec_do_untrust(t: TrustModel, free: bool, who: AccountId, target: AccountId) -> Result<
    TrustModel,
    DispatchError,
> {
    if who == target {
        Err(DispatchError::Trust(Error::UnableUntrustYourself))
    } else if !t.lists[who].contains(target) {
        Err(DispatchError::Trust(Error::NonExistent))
    } else {
        let t1 = TrustModel { lists: t.lists.insert(who, t.lists[who].remove(target)), ..t };
        if free {
            Ok(t1)
        } else if t.temp_untrust[who].contains(target) {
            Ok(
                TrustModel {
                    temp_untrust: t.temp_untrust.insert(who, t.temp_untrust[who].remove(target)),
                    ..t1
                },
            )
        } else {
            Ok(TrustModel { temp_trust: t.temp_trust.insert(who, t.temp_trust[who].insert(target)), ..t1 })
        }
    }
}

/// The users that `who` trusted when the update started, in the order in which they are
/// listed: those still trusted, in increasing order, then those no longer trusted.
pub open spec fn spec_trust_old_list(t: TrustModel, who: AccountId) -> Seq<AccountId> {
    sorted_seq_of(t.lists[who].difference(t.temp_untrust[who])) + sorted_seq_of(t.temp_trust[who])
}

/// Whether, for every user, at least as many users were trusted when the update started as
/// have been trusted since.
pub open spec fn spec_counts_ok(t: TrustModel) -> bool {
    forall|who: AccountId| #[trigger] spec_count_old(t, who) >= 0
}

/// `t` with the changes of the update forgotten.
pub open spec fn spec_remove_all_tmp(t: TrustModel) -> TrustModel {
    TrustModel {
        temp_trust: Map::new(|k: AccountId| true, |k: AccountId| Set::<AccountId>::empty()),
        temp_untrust: Map::new(|k: AccountId| true, |k: AccountId| Set::<AccountId>::empty()),
        ..t
    }
}

/// Whether the recorded changes agree with the lists: users trusted since the start are
/// trusted now, and users no longer trusted are not.
pub open spec fn spec_consistent(t: TrustModel) -> bool {
    forall|who: AccountId|
        #![trigger t.lists[who]]
        t.temp_untrust[who].subset_of(t.lists[who]) && t.temp_trust[who].disjoint(t.lists[who])
}

/// Trusting and untrusting keep the recorded changes consistent with the lists, during an
/// update, or outside one when no changes of the user are recorded.
pub proof fn lemma_trust_keeps_consistency(t: TrustModel, free: bool, max: u32, who: AccountId, target: AccountId)
    requires
        spec_consistent(t),
        free ==> t.temp_trust[who] == Set::<AccountId>::empty() && t.temp_untrust[who] == Set::<AccountId>::empty(),
    ensures
        spec_do_trust(t, free, max, who, target) is Ok ==> spec_consistent(spec_do_trust(t, free, max, who, target)->Ok_0),
        spec_do_untrust(t, free, who, target) is Ok ==> spec_consistent(spec_do_untrust(t, free, who, target)->Ok_0),
{
    if spec_do_trust(t, free, max, who, target) is Ok {
        let t2 = spec_do_trust(t, free, max, who, target)->Ok_0;
        assert forall|w: AccountId| #![trigger t2.lists[w]]
            t2.temp_untrust[w].subset_of(t2.lists[w]) && t2.temp_trust[w].disjoint(t2.lists[w]) by {
            assert(t.temp_untrust[w].subset_of(t.lists[w]) && t.temp_trust[w].disjoint(t.lists[w]));
        }
    }
    if spec_do_untrust(t, free, who, target) is Ok {
        let t2 = spec_do_untrust(t, free, who, target)->Ok_0;
        assert forall|w: AccountId| #![trigger t2.lists[w]]
            t2.temp_untrust[w].subset_of(t2.lists[w]) && t2.temp_trust[w].disjoint(t2.lists[w]) by {
            assert(t.temp_untrust[w].subset_of(t.lists[w]) && t.temp_trust[w].disjoint(t.lists[w]));
        }
    }
}

/// The invariant of the trust pallet: the recorded changes agree with the lists, and outside
/// an update (`free`) no changes are recorded.
pub open spec fn spec_trust_inv(t: TrustModel, free: bool) -> bool {
    &&& spec_consistent(t)
    &&& free ==> forall|who: AccountId|
        #![trigger t.temp_trust[who]]
        #![trigger t.temp_untrust[who]]
        t.temp_trust[who] == Set::<AccountId>::empty() && t.temp_untrust[who] == Set::<AccountId>::empty()
}

/// A path of one step from a seed to a user it trusts passes on the seed's initial score,
/// damped, divided by the number of users that the seed trusted when the update started (at
/// least `MIN_TRUST_COUNT`) and by the step's distance, which is the approximate logarithm of
/// the seed's score less the user's reputation.
pub proof fn law_one_step_path_score(
    t: TrustModel,
    seeds: Seq<AccountId>,
    rep: ReputationModel,
    damping: u32,
    users: Seq<AccountId>,
)
    requires
        users.len() == 2,
        seeds.contains(users[0]),
        t.lists[users[0]].contains(users[1]),
    ensures
        spec_computed_path(t, seeds, rep, damping, users) is Ok,
        ({
            let (dist, score) = spec_computed_path(t, seeds, rep, damping, users)->Ok_0;
            let end = match spec_reputation(rep, users[1]) {
                Some(v) => v,
                None => 0u32,
            };
            let n = spec_count_old(t, users[0]);
            let divisor = if n < MIN_TRUST_COUNT {
                MIN_TRUST_COUNT as int
            } else {
                n
            };
            &&& dist == spec_appro_ln(sat_sub_u32(INIT_SEED_RANK, end))
            &&& 0 <= n <= u32::MAX ==> score == ((spec_mul_floor(damping, INIT_SEED_RANK as int) / divisor) / (
            dist as int)) as u32
        }),
{
    reveal_with_fuel(spec_path_steps, 2);
    let end = match spec_reputation(rep, users[1]) {
        Some(v) => v,
        None => 0u32,
    };
    let dist = spec_appro_ln(sat_sub_u32(INIT_SEED_RANK, end));
    let n = spec_count_old(t, users[0]);
    let tc = n as u32;
    let divisor = if tc < MIN_TRUST_COUNT {
        MIN_TRUST_COUNT
    } else {
        tc
    };
    let sc = ((spec_mul_floor(damping, INIT_SEED_RANK as int) / (divisor as int)) / (dist as int)) as u32;
    assert(spec_path_steps(t, rep, damping, users, 0, INIT_SEED_RANK, 0, INIT_SEED_RANK) == spec_path_steps(
        t,
        rep,
        damping,
        users,
        1,
        end,
        sat_add_u32(0, dist),
        sc,
    ));
    assert(sat_add_u32(0, dist) == dist);
}

/// Trusting and untrusting keep the invariant of the trust pallet.
pub proof fn law_trust_keeps_invariant(t: TrustModel, free: bool, max: u32, who: AccountId, target: AccountId)
    requires
        spec_trust_inv(t, free),
    ensures
        spec_do_trust(t, free, max, who, target) is Ok ==> spec_trust_inv(spec_do_trust(t, free, max, who, target)->Ok_0, free),
        spec_do_untrust(t, free, who, target) is Ok ==> spec_trust_inv(spec_do_untrust(t, free, who, target)->Ok_0, free),
{
    if free {
        assert(t.temp_trust[who] == Set::<AccountId>::empty());
        assert(t.temp_untrust[who] == Set::<AccountId>::empty());
    }
    lemma_trust_keeps_consistency(t, free, max, who, target);
}

/// Forgetting the changes of an update gives a pallet that holds the invariant outside an
/// update.
pub proof fn law_remove_all_tmp_restores_invariant(t: TrustModel)
    ensures
        spec_trust_inv(spec_remove_all_tmp(t), true),
{
    let t2 = spec_remove_all_tmp(t);
    assert forall|who: AccountId| #![trigger t2.lists[who]]
        t2.temp_untrust[who].subset_of(t2.lists[who]) && t2.temp_trust[who].disjoint(t2.lists[who]) by {
        assert(t2.temp_untrust[who] == Set::<AccountId>::empty());
        assert(t2.temp_trust[who] == Set::<AccountId>::empty());
    }
}

/// After `who` trusts `target`, it does, and trusting again is refused.
pub proof fn law_trust_then_is_trust(t: TrustModel, free: bool, max: u32, who: AccountId, target: AccountId)
    requires
        spec_do_trust(t, free, max, who, target) is Ok,
    ensures
        spec_do_trust(t, free, max, who, target)->Ok_0.lists[who].contains(target),
        spec_do_trust(spec_do_trust(t, free, max, who, target)->Ok_0, free, max, who, target) is Err,
{
}

/// When the recorded changes agree with finite lists, no user trusted fewer users when the
/// update started than it untrusted since.
pub proof fn lemma_consistent_counts_ok(t: TrustModel)
    requires
        spec_consistent(t),
        forall|who: AccountId| #[trigger] t.lists[who].finite(),
    ensures
        spec_counts_ok(t),
{
    assert forall|who: AccountId| #[trigger] spec_count_old(t, who) >= 0 by {
        assert(t.temp_untrust[who].subset_of(t.lists[who]) && t.temp_trust[who].disjoint(t.lists[who]));
        vstd::set_lib::lemma_len_subset(t.temp_untrust[who], t.lists[who]);
    }
}

/// Untrusting undoes trusting: when `who` trusts `target` and then stops, the lists and the
/// recorded changes are as before.
pub proof fn law_untrust_undoes_trust(t: TrustModel, free: bool, max: u32, who: AccountId, target: AccountId)
    requires
        spec_consistent(t),
        t.lists.dom().contains(who),
        t.temp_trust.dom().contains(who),
        t.temp_untrust.dom().contains(who),
        spec_do_trust(t, free, max, who, target) is Ok,
    ensures
        spec_do_untrust(spec_do_trust(t, free, max, who, target)->Ok_0, free, who, target) == Ok::<
            TrustModel,
            DispatchError,
        >(t),
{
    let t2 = spec_do_trust(t, free, max, who, target)->Ok_0;
    assert(t.temp_untrust[who].subset_of(t.lists[who]) && t.temp_trust[who].disjoint(t.lists[who]));
    let t3 = spec_do_untrust(t2, free, who, target)->Ok_0;
    assert(!t.lists[who].contains(target));
    assert(t2.lists[who].remove(target) =~= t.lists[who]);
    assert(t3.lists =~= t.lists.insert(who, t.lists[who]));
    assert(t3.lists =~= t.lists);
    if !free {
        if t.temp_trust[who].contains(target) {
            assert(!t.temp_untrust[who].contains(target));
            assert(t2.temp_trust[who].insert(target) =~= t.temp_trust[who]);
            assert(t3.temp_trust =~= t.temp_trust.insert(who, t.temp_trust[who]));
        } else {
            assert(!t.temp_untrust[who].contains(target));
            assert(t2.temp_untrust[who].remove(target) =~= t.temp_untrust[who]);
            assert(t3.temp_untrust =~= t.temp_untrust.insert(who, t.temp_untrust[who]));
        }
    }
    assert(t3.temp_trust =~= t.temp_trust);
    assert(t3.temp_untrust =~= t.temp_untrust);
}

/// A sorted sequence has as many elements as its set.
pub proof fn lemma_sorted_len(s: Seq<AccountId>)
    requires
        sorted(s),
    ensures
        s.to_set().len() == s.len(),
        s.to_set().finite(),
{
    assert(s.no_duplicates());
    s.unique_seq_to_set();
    vstd::seq_lib::seq_to_set_is_finite(s);
}

impl Pallet {
    /// The users that `who` trusts, in increasing order.
    pub open spec fn list_seq(&self, who: AccountId) -> Seq<AccountId> {
        if self.trusted_list@.contains_key(who) {
            self.trusted_list@[who]@
        } else {
            Seq::empty()
        }
    }

    /// The users that `who` no longer trusts since the start of the update.
    pub open spec fn temp_trust_seq(&self, who: AccountId) -> Seq<AccountId> {
        if self.trust_temp_list@.contains_key(who) {
            self.trust_temp_list@[who].trust@
        } else {
            Seq::empty()
        }
    }

    /// The users that `who` trusts since the start of the update.
    pub open spec fn temp_untrust_seq(&self, who: AccountId) -> Seq<AccountId> {
        if self.trust_temp_list@.contains_key(who) {
            self.trust_temp_list@[who].untrust@
        } else {
            Seq::empty()
        }
    }

    /// What contracts see of the storage.
    pub open spec fn view(&self) -> TrustModel {
        TrustModel {
            lists: Map::new(|k: AccountId| true, |k: AccountId| self.list_seq(k).to_set()),
            temp_trust: Map::new(|k: AccountId| true, |k: AccountId| self.temp_trust_seq(k).to_set()),
            temp_untrust: Map::new(|k: AccountId| true, |k: AccountId| self.temp_untrust_seq(k).to_set()),
        }
    }

    /// Every stored set is strictly increasing.
    pub open spec fn wf(&self) -> bool {
        &&& forall|k: AccountId| #[trigger] self.trusted_list@.contains_key(k) ==> self.trusted_list@[k].wf()
        &&& forall|k: AccountId|
            #[trigger] self.trust_temp_list@.contains_key(k) ==> self.trust_temp_list@[k].trust.wf()
                && self.trust_temp_list@[k].untrust.wf()
    }

    /// The stored sets of a well-formed pallet are sorted.
    pub proof fn lemma_wf_sorted(&self, who: AccountId)
        requires
            self.wf(),
        ensures
            sorted(self.list_seq(who)),
            sorted(self.temp_trust_seq(who)),
            sorted(self.temp_untrust_seq(who)),
            self@.lists[who].len() == self.list_seq(who).len(),
            self@.temp_trust[who].len() == self.temp_trust_seq(who).len(),
            self@.temp_untrust[who].len() == self.temp_untrust_seq(who).len(),
            self@.lists[who].finite(),
            self@.temp_trust[who].finite(),
            self@.temp_untrust[who].finite(),
    {
        if self.trusted_list@.contains_key(who) {
            assert(self.trusted_list@[who].wf());
        }
        if self.trust_temp_list@.contains_key(who) {
            assert(self.trust_temp_list@[who].trust.wf());
        }
        lemma_sorted_len(self.list_seq(who));
        lemma_sorted_len(self.temp_trust_seq(who));
        lemma_sorted_len(self.temp_untrust_seq(who));
    }

    /// The lists of a well-formed pallet are finite.
    pub proof fn lemma_lists_finite(&self)
        requires
            self.wf(),
        ensures
            forall|who: AccountId| #[trigger] self@.lists[who].finite(),
    {
        assert forall|who: AccountId| #[trigger] self@.lists[who].finite() by {
            self.lemma_wf_sorted(who);
        }
    }

    /// Empty storage with the given constants.
    pub fn new(config: Config) -> (p: Pallet)
        ensures
            p.config == config,
            p.wf(),
            forall|k: AccountId| #[trigger] p.list_seq(k) == Seq::<AccountId>::empty(),
            forall|k: AccountId| #[trigger] p.temp_trust_seq(k) == Seq::<AccountId>::empty(),
            forall|k: AccountId| #[trigger] p.temp_untrust_seq(k) == Seq::<AccountId>::empty(),
    {
        Pallet { config, trusted_list: StorageMap::new(), trust_temp_list: StorageMap::new() }
    }

    /// A copy of the users that `who` trusts.
    pub fn trust_list(&self, who: &AccountId) -> (s: OrderedSet)
        requires
            self.wf(),
        ensures
            s@ == self.list_seq(*who),
            s.wf(),
    {
        match self.trusted_list.get(who) {
            Some(s) => s.duplicate(),
            None => OrderedSet::new(),
        }
    }

    /// A copy of the changes to the list of `who`.
    pub fn trust_temp_list(&self, who: &AccountId) -> (t: TrustTemp)
        requires
            self.wf(),
        ensures
            t.trust@ == self.temp_trust_seq(*who),
            t.untrust@ == self.temp_untrust_seq(*who),
            t.trust.wf(),
            t.untrust.wf(),
    {
        match self.trust_temp_list.get(who) {
            Some(t) => TrustTemp { trust: t.trust.duplicate(), untrust: t.untrust.duplicate() },
            None => TrustTemp::new(),
        }
    }

    /// Clears the changes recorded during the update.
    pub fn remove_all_tmp(&mut self)
        ensures
            final(self).config == old(self).config,
            final(self).trusted_list == old(self).trusted_list,
            forall|k: AccountId| #[trigger] final(self).temp_trust_seq(k) == Seq::<AccountId>::empty(),
            forall|k: AccountId| #[trigger] final(self).temp_untrust_seq(k) == Seq::<AccountId>::empty(),
            final(self)@ == spec_remove_all_tmp(old(self)@),
            old(self).wf() ==> final(self).wf(),
    {
        self.trust_temp_list = StorageMap::new();
        proof {
            assert(self@.lists =~= old(self)@.lists);
            assert(self@.temp_trust =~= spec_remove_all_tmp(old(self)@).temp_trust) by {
                assert forall|k: AccountId| #[trigger] self@.temp_trust[k] == Set::<AccountId>::empty() by {
                    assert(self.temp_trust_seq(k).to_set() =~= Set::<AccountId>::empty());
                }
            }
            assert(self@.temp_untrust =~= spec_remove_all_tmp(old(self)@).temp_untrust) by {
                assert forall|k: AccountId| #[trigger] self@.temp_untrust[k] == Set::<AccountId>::empty() by {
                    assert(self.temp_untrust_seq(k).to_set() =~= Set::<AccountId>::empty());
                }
            }
        }
    }

    /// The number of users that `who` trusts.
    pub fn get_trust_count(&self, who: &AccountId) -> (n: usize)
        requires
            self.wf(),
        ensures
            n == self@.lists[*who].len(),
    {
        proof {
            self.lemma_wf_sorted(*who);
        }
        match self.trusted_list.get(who) {
            Some(s) => s.len(),
            None => 0,
        }
    }

    /// The number of users that `who` trusted when the update started, as a wide integer.
    fn count_old_wide(&self, who: &AccountId) -> (n: u128)
        requires
            self.wf(),
            spec_count_old(self@, *who) >= 0,
        ensures
            n == spec_count_old(self@, *who),
    {
        proof {
            self.lemma_wf_sorted(*who);
        }
        let count = self.get_trust_count(who);
        let temp = self.trust_temp_list(who);
        let t = temp.trust.len();
        let u = temp.untrust.len();
        (count as u128) + (t as u128) - (u as u128)
    }

    /// The number of users that `who` trusted when the update started: the users trusted now,
    /// plus those no longer trusted, less those trusted since.
    pub fn get_trust_count_old(&self, who: &AccountId) -> (n: usize)
        requires
            self.wf(),
            self@.lists[*who].len() + self@.temp_trust[*who].len() <= usize::MAX,
            spec_count_old(self@, *who) >= 0,
        ensures
            n == spec_count_old(self@, *who),
    {
        self.count_old_wide(who) as usize
    }

    /// Whether `who` trusts `target`.
    pub fn is_trust(&self, who: &AccountId, target: &AccountId) -> (b: bool)
        requires
            self.wf(),
        ensures
            b == self@.lists[*who].contains(*target),
    {
        let s = self.trust_list(who);
        s.contains(target)
    }

    /// Whether `who` trusted `target` when the update started.
    pub fn is_trust_old(&self, who: &AccountId, target: &AccountId) -> (b: bool)
        requires
            self.wf(),
        ensures
            b == spec_is_trust_old(self@, *who, *target),
    {
        let temp_list = self.trust_temp_list(who);
        temp_list.trust.contains(target) || (self.is_trust(who, target) && !temp_list.untrust.contains(target))
    }

    /// Succeeds when every user of `nodes` trusted the next one when the update started.
    pub fn valid_nodes(&self, nodes: &Vec<AccountId>) -> (r: Result<(), DispatchError>)
        requires
            self.wf(),
        ensures
            (forall|k: int| 0 <= k < nodes@.len() - 1 ==> spec_is_trust_old(self@, #[trigger] nodes@[k], nodes@[k + 1]))
                ==> r is Ok,
            !(forall|k: int| 0 <= k < nodes@.len() - 1 ==> spec_is_trust_old(self@, #[trigger] nodes@[k], nodes@[k + 1]))
                ==> r == Err::<(), DispatchError>(DispatchError::Trust(Error::WrongPath)),
    {
        let n = nodes.len();
        if n < 2 {
            return Ok(());
        }
        let mut k: usize = 0;
        while k + 1 < n
            invariant
                n == nodes@.len(),
                n >= 2,
                0 <= k <= n - 1,
                self.wf(),
                forall|j: int| 0 <= j < k ==> spec_is_trust_old(self@, #[trigger] nodes@[j], nodes@[j + 1]),
            decreases n - k,
        {
            if !self.is_trust_old(&nodes[k], &nodes[k + 1]) {
                return Err(DispatchError::Trust(Error::WrongPath));
            }
            k = k + 1;
        }
        Ok(())
    }

    /// The users that `who` trusted when the update started: the current list without the
    /// users trusted since, followed by the users no longer trusted.
    pub fn get_trust_old(&self, who: &AccountId) -> (r: Vec<AccountId>)
        requires
            self.wf(),
            self.list_seq(*who).len() < usize::MAX,
        ensures
            spec_consistent(self@) ==> r@ == spec_trust_old_list(self@, *who),
            ({
                let tt = self.temp_trust_seq(*who);
                let k = r@.len() - tt.len();
                &&& r@.len() >= tt.len()
                &&& r@.subrange(k, r@.len() as int) == tt
                &&& sorted(r@.subrange(0, k))
                &&& forall|x: AccountId| r@.subrange(0, k).contains(x) ==> self@.lists[*who].contains(x)
                &&& forall|x: AccountId|
                    self@.lists[*who].contains(x) && !self@.temp_untrust[*who].contains(x) ==> r@.subrange(0, k).contains(x)
                &&& spec_consistent(self@) ==> r@.subrange(0, k).to_set() == self@.lists[*who].difference(
                    self@.temp_untrust[*who],
                )
            }),
    {
        proof {
            self.lemma_wf_sorted(*who);
        }
        let mut trusted_user = self.trust_list(who);
        let temp_list = self.trust_temp_list(who);
        let ghost l = trusted_user@;
        trusted_user.sub_set(&temp_list.untrust.0);
        let ghost a = trusted_user@;
        let mut v = trusted_user.0;
        let mut tail = temp_list.trust.0;
        let ghost tt = tail@;
        v.append(&mut tail);
        proof {
            assert forall|x: AccountId| a.contains(x) implies l.contains(x) by {
                assert(a.to_set().contains(x));
            }
            assert forall|x: AccountId| l.contains(x) && !temp_list.untrust@.contains(x) implies a.contains(x) by {
                assert(l.to_set().contains(x));
                assert(a.to_set().contains(x));
            }
            assert(v@ == a + tt);
            assert(v@.subrange((v@.len() - tt.len()) as int, v@.len() as int) =~= tt);
            assert(v@.subrange(0, (v@.len() - tt.len()) as int) =~= a);
            if spec_consistent(self@) {
                assert(self@.temp_untrust[*who].subset_of(self@.lists[*who]));
                assert forall|x: AccountId| temp_list.untrust@.contains(x) implies l.contains(x) by {
                    assert(self@.temp_untrust[*who].contains(x));
                }
                assert(a.to_set() =~= self@.lists[*who].difference(self@.temp_untrust[*who]));
                lemma_sorted_seq_of(a);
                lemma_sorted_seq_of(tt);
                assert(v@ =~= spec_trust_old_list(self@, *who));
            }
        }
        v
    }

    /// The total distance of the path `users`, which starts at a seed, and the score that
    /// it passes to its last user.
    pub fn computed_path(
        &self,
        seeds: &crate::seeds::Pallet,
        rep: &crate::reputation::Pallet,
        users: &Vec<AccountId>,
    ) -> (r: Result<(u32, u32), DispatchError>)
        requires
            users@.len() > 0,
            self.wf(),
            spec_counts_ok(self@),
            seeds.wf(),
            rep.nonce_ok(),
            self.config.damping_factor.parts <= BILLION,
        ensures
            r == spec_computed_path(self@, seeds@, rep@, self.config.damping_factor.parts, users@),
    {
        if !seeds.is_seed(&users[0]) {
            return Err(DispatchError::Trust(Error::NotSeed));
        }
        let n = users.len();
        let mut start_ir: u32 = INIT_SEED_RANK;
        let mut dist: u32 = 0;
        let mut score: u32 = INIT_SEED_RANK;
        let mut k: usize = 0;
        while k + 1 < n
            invariant
                n == users@.len(),
                n > 0,
                0 <= k < n,
                seeds@.contains(users@[0]),
                self.wf(),
                spec_counts_ok(self@),
                rep.nonce_ok(),
                self.config.damping_factor.parts <= BILLION,
                spec_path_steps(self@, rep@, self.config.damping_factor.parts, users@, 0, INIT_SEED_RANK, 0, INIT_SEED_RANK)
                    == spec_path_steps(self@, rep@, self.config.damping_factor.parts, users@, k as int, start_ir, dist, score),
            decreases n - k,
        {
            let u0 = users[k];
            let u1 = users[k + 1];
            if !self.is_trust(&u0, &u1) {
                assert(spec_path_steps(self@, rep@, self.config.damping_factor.parts, users@, k as int, start_ir, dist, score)
                    == Err::<(u32, u32), DispatchError>(DispatchError::Trust(Error::WrongPath)));
                return Err(DispatchError::Trust(Error::WrongPath));
            }
            let end_ir = match rep.get_reputation(&u1) {
                Some(v) => v,
                None => 0,
            };
            let item_dist = appro_ln(start_ir.saturating_sub(end_ir));
            let trust_count = self.count_old_wide(&u0) as u32;
            let divisor = if trust_count < MIN_TRUST_COUNT {
                MIN_TRUST_COUNT
            } else {
                trust_count
            };
            let item_score = self.config.damping_factor.mul_floor_u32(score) / divisor / item_dist;
            dist = dist.saturating_add(item_dist);
            score = item_score;
            start_ir = end_ir;
            k = k + 1;
        }
        Ok((dist, score))
    }

    /// `who` trusts `target`; during an update the change is recorded.
    pub fn do_trust(&mut self, rep: &crate::reputation::Pallet, who: &AccountId, target: &AccountId) -> (r: Result<
        (),
        DispatchError,
    >)
        requires
            old(self).wf(),
        ensures
            final(self).wf(),
            final(self).config == old(self).config,
            match spec_do_trust(
                old(self)@,
                rep@.system_info.step == TIRStep::Free,
                old(self).config.max_trust_count,
                *who,
                *target,
            ) {
                Ok(t) => r is Ok && final(self)@ == t,
                Err(e) => r == Err::<(), DispatchError>(e) && final(self)@ == old(self)@,
            },
    {
        let ghost t0 = self@;
        proof {
            self.lemma_wf_sorted(*who);
        }
        if *who == *target {
            return Err(DispatchError::Trust(Error::UnableTrustYourself));
        }
        let mut t = self.trust_list(who);
        if (t.len() as u32) >= self.config.max_trust_count {
            return Err(DispatchError::Trust(Error::TooMuchTrust));
        }
        if !t.insert(*target) {
            return Err(DispatchError::Trust(Error::RepeatTrust));
        }
        self.trusted_list.insert(*who, t);
        let ghost t1 = self@;
        proof {
            assert(t1.lists =~= t0.lists.insert(*who, t0.lists[*who].insert(*target)));
            assert(t1.temp_trust =~= t0.temp_trust);
            assert(t1.temp_untrust =~= t0.temp_untrust);
        }
        if !rep.is_step(&TIRStep::Free) {
            let mut temp = self.trust_temp_list(who);
            if !temp.trust.remove(target) {
                let _ = temp.untrust.insert(*target);
            }
            self.trust_temp_list.insert(*who, temp);
            proof {
                assert(self@.lists =~= t1.lists);
                if t0.temp_trust[*who].contains(*target) {
                    assert(self@.temp_trust =~= t0.temp_trust.insert(*who, t0.temp_trust[*who].remove(*target)));
                    assert(self@.temp_untrust =~= t0.temp_untrust);
                } else {
                    assert(self@.temp_untrust =~= t0.temp_untrust.insert(*who, t0.temp_untrust[*who].insert(*target)));
                    assert(self@.temp_trust =~= t0.temp_trust);
                }
            }
        }
        Ok(())
    }

    /// `who` stops trusting `target`; during an update the change is recorded.
    pub fn do_untrust(&mut self, rep: &crate::reputation::Pallet, who: &AccountId, target: &AccountId) -> (r:
        Result<(), DispatchError>)
        requires
            old(self).wf(),
        ensures
            final(self).wf(),
            final(self).config == old(self).config,
            match spec_do_untrust(old(self)@, rep@.system_info.step == TIRStep::Free, *who, *target) {
                Ok(t) => r is Ok && final(self)@ == t,
                Err(e) => r == Err::<(), DispatchError>(e) && final(self)@ == old(self)@,
            },
    {
        let ghost t0 = self@;
        proof {
            self.lemma_wf_sorted(*who);
        }
        if *who == *target {
            return Err(DispatchError::Trust(Error::UnableUntrustYourself));
        }
        let mut t = self.trust_list(who);
        if !t.remove(target) {
            return Err(DispatchError::Trust(Error::NonExistent));
        }
        self.trusted_list.insert(*who, t);
        let ghost t1 = self@;
        proof {
            assert(t1.lists =~= t0.lists.insert(*who, t0.lists[*who].remove(*target)));
            assert(t1.temp_trust =~= t0.temp_trust);
            assert(t1.temp_untrust =~= t0.temp_untrust);
        }
        if !rep.is_step(&TIRStep::Free) {
            let mut temp = self.trust_temp_list(who);
            if !temp.untrust.remove(target) {
                let _ = temp.trust.insert(*target);
            }
            self.trust_temp_list.insert(*who, temp);
            proof {
                assert(self@.lists =~= t1.lists);
                if t0.temp_untrust[*who].contains(*target) {
                    assert(self@.temp_untrust =~= t0.temp_untrust.insert(*who, t0.temp_untrust[*who].remove(*target)));
                    assert(self@.temp_trust =~= t0.temp_trust);
                } else {
                    assert(self@.temp_trust =~= t0.temp_trust.insert(*who, t0.temp_trust[*who].insert(*target)));
                    assert(self@.temp_untrust =~= t0.temp_untrust);
                }
            }
        }
        Ok(())
    }

    /// The caller trusts `target`.
    pub fn trust(rt: &mut Runtime, origin: Origin, target: AccountId) -> (r: Result<(), DispatchError>)
        requires
            old(rt).trust.wf(),
        ensures
            final(rt).same_except_trust(*old(rt)),
            final(rt).trust.wf(),
            match origin {
                Origin::Signed(who) => match spec_do_trust(
                    old(rt).trust@,
                    old(rt).reputation@.system_info.step == TIRStep::Free,
                    old(rt).trust.config.max_trust_count,
                    who,
                    target,
                ) {
                    Ok(t) => r is Ok && final(rt).trust@ == t && final(rt).system.events@ == old(
                        rt,
                    ).system.events@.push(RuntimeEvent::Trust(Event::Trusted(who, target))),
                    Err(e) => r == Err::<(), DispatchError>(e) && final(rt).unchanged(*old(rt)),
                },
                _ => r == Err::<(), DispatchError>(DispatchError::BadOrigin) && final(rt).unchanged(*old(rt)),
            },
    {
        let who = ensure_signed(origin)?;
        rt.trust.do_trust(&rt.reputation, &who, &target)?;
        rt.system.deposit_event(RuntimeEvent::Trust(Event::Trusted(who, target)));
        Ok(())
    }

    /// The caller stops trusting `target`.
    pub fn untrust(rt: &mut Runtime, origin: Origin, target: AccountId) -> (r: Result<(), DispatchError>)
        requires
            old(rt).trust.wf(),
        ensures
            final(rt).same_except_trust(*old(rt)),
            final(rt).trust.wf(),
            match origin {
                Origin::Signed(who) => match spec_do_untrust(
                    old(rt).trust@,
                    old(rt).reputation@.system_info.step == TIRStep::Free,
                    who,
                    target,
                ) {
                    Ok(t) => r is Ok && final(rt).trust@ == t && final(rt).system.events@ == old(
                        rt,
                    ).system.events@.push(RuntimeEvent::Trust(Event::Untrusted(who, target))),
                    Err(e) => r == Err::<(), DispatchError>(e) && final(rt).unchanged(*old(rt)),
                },
                _ => r == Err::<(), DispatchError>(DispatchError::BadOrigin) && final(rt).unchanged(*old(rt)),
            },
    {
        let who = ensure_signed(origin)?;
        rt.trust.do_untrust(&rt.reputation, &who, &target)?;
        rt.system.deposit_event(RuntimeEvent::Trust(Event::Untrusted(who, target)));
        Ok(())
    }
}

} // verus!
