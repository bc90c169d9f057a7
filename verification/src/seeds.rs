//! The seed users: the starting points of the trust paths.
use crate::ordered_set::OrderedSet;
use crate::primitives::{AccountId, TIRStep};
use crate::runtime::Runtime;
use crate::system::{ensure_root, DispatchError, Origin, RuntimeEvent, System};
use vstd::prelude::*;

verus! {

/// Errors of the pallet.
#[derive(Clone, Copy, PartialEq, Eq, Structural, Debug)]
pub enum Error {
    /// Seed users already exist.
    AlreadySeedUser,
    /// Not a seed user.
    NotSeedUser,
    /// Status error.
    StatusErr,
    /// Calculation overflow.
    Overflow,
}

/// Events of the pallet.
#[derive(Clone, Copy, PartialEq, Eq, Structural, Debug)]
pub enum Event {
    /// A seed was added \[seed\].
    SeedAdded(AccountId),
    /// A seed was removed \[seed\].
    SeedRemoved(AccountId),
}

/// The storage of the pallet.
pub struct Pallet {
    pub seeds: OrderedSet,
}

/// What other pallets use of the seeds.
pub trait SeedsBase: Sized {
    /// The seeds, in increasing order.
    spec fn seed_list(&self) -> Seq<AccountId>;

    /// The seeds are strictly increasing.
    spec fn seeds_wf(&self) -> bool;

    /// Whether `seed` is a seed.
    fn is_seed(&self, seed: &AccountId) -> (b: bool)
        requires
            self.seeds_wf(),
        ensures
            b == self.seed_list().contains(*seed),
    ;

    /// The number of seeds.
    fn get_seed_count(&self) -> (n: u32)
        ensures
            n == self.seed_list().len() as u32,
    ;

    /// Removes all seeds.
    fn remove_all(&mut self)
        ensures
            final(self).seed_list() == Seq::<AccountId>::empty(),
            final(self).seeds_wf(),
    ;

    /// Adds a seed.
    fn add_seed(&mut self, sys: &mut System, new_seed: &AccountId)
        requires
            old(self).seeds_wf(),
        ensures
            final(self).seeds_wf(),
            final(self).seed_list().to_set() == old(self).seed_list().to_set().insert(*new_seed),
            old(self).seed_list().contains(*new_seed) ==> final(self).seed_list() == old(self).seed_list(),
            final(sys).block_number == old(sys).block_number,
            final(sys).events@ == old(sys).events@.push(RuntimeEvent::Seeds(Event::SeedAdded(*new_seed))),
    ;
}

impl SeedsBase for Pallet {
    open spec fn seed_list(&self) -> Seq<AccountId> {
        self@
    }

    open spec fn seeds_wf(&self) -> bool {
        self.wf()
    }

    fn is_seed(&self, seed: &AccountId) -> (b: bool) {
        Pallet::is_seed(self, seed)
    }

    fn get_seed_count(&self) -> (n: u32) {
        Pallet::get_seed_count(self)
    }

    fn remove_all(&mut self) {
        Pallet::remove_all(self)
    }

    fn add_seed(&mut self, sys: &mut System, new_seed: &AccountId) {
        Pallet::add_seed(self, sys, new_seed)
    }
}

impl Pallet {
    /// The seeds in increasing order.
    pub open spec fn view(&self) -> Seq<AccountId> {
        self.seeds@
    }

    /// The seeds are strictly increasing.
    pub open spec fn wf(&self) -> bool {
        self.seeds.wf()
    }

    /// No seeds.
    pub fn new() -> (p: Pallet)
        ensures
            p@ == Seq::<AccountId>::empty(),
            p.wf(),
    {
        Pallet { seeds: OrderedSet::new() }
    }

    /// The seeds.
    pub fn get_seeds(&self) -> (s: &OrderedSet)
        ensures
            s@ == self@,
    {
        &self.seeds
    }

    /// The number of seeds.
    pub fn get_seed_count(&self) -> (n: u32)
        ensures
            n == self@.len() as u32,
    {
        self.seeds.len() as u32
    }

    /// Whether `seed` is a seed.
    pub fn is_seed(&self, seed: &AccountId) -> (b: bool)
        requires
            self.wf(),
        ensures
            b == self@.contains(*seed),
    {
        self.seeds.contains(seed)
    }

    /// Removes all seeds.
    pub fn remove_all(&mut self)
        ensures
            final(self)@ == Seq::<AccountId>::empty(),
            final(self).wf(),
    {
        self.seeds.clear();
    }

    /// Adds a seed.
    pub fn add_seed(&mut self, sys: &mut System, new_seed: &AccountId)
        requires
            old(self).wf(),
        ensures
            final(self).wf(),
            final(self)@.to_set() == old(self)@.to_set().insert(*new_seed),
            old(self)@.contains(*new_seed) ==> final(self)@ == old(self)@,
            final(sys).block_number == old(sys).block_number,
            final(sys).events@ == old(sys).events@.push(RuntimeEvent::Seeds(Event::SeedAdded(*new_seed))),
    {
        let _ = self.seeds.insert(*new_seed);
        sys.deposit_event(RuntimeEvent::Seeds(Event::SeedAdded(*new_seed)));
    }

    /// Adds `seed` as a seed; fails when it is one already.
    ///
    /// Requires the root origin, and the system must not be updating.
    pub fn new_seed(rt: &mut Runtime, origin: Origin, seed: AccountId) -> (r: Result<(), DispatchError>)
        requires
            old(rt).seeds.wf(),
        ensures
            final(rt).same_except_seeds(*old(rt)),
            final(rt).seeds.wf(),
            origin != Origin::Root ==> r == Err::<(), DispatchError>(DispatchError::BadOrigin)
                && final(rt).unchanged(*old(rt)),
            origin == Origin::Root && old(rt).reputation@.system_info.step != TIRStep::Free ==> r
                == Err::<(), DispatchError>(DispatchError::Seeds(Error::StatusErr)) && final(rt).unchanged(*old(rt)),
            origin == Origin::Root && old(rt).reputation@.system_info.step == TIRStep::Free
                && old(rt).seeds@.contains(seed) ==> r == Err::<(), DispatchError>(
                DispatchError::Seeds(Error::AlreadySeedUser),
            ) && final(rt).unchanged(*old(rt)),
            origin == Origin::Root && old(rt).reputation@.system_info.step == TIRStep::Free
                && !old(rt).seeds@.contains(seed) ==> r is Ok && final(rt).seeds@.to_set() == old(
                rt,
            ).seeds@.to_set().insert(seed) && final(rt).system.events@ == old(rt).system.events@.push(
                RuntimeEvent::Seeds(Event::SeedAdded(seed)),
            ),
    {
        ensure_root(origin)?;
        if !rt.reputation.is_step(&TIRStep::Free) {
            return Err(DispatchError::Seeds(Error::StatusErr));
        }
        if rt.seeds.is_seed(&seed) {
            return Err(DispatchError::Seeds(Error::AlreadySeedUser));
        }
        rt.seeds.add_seed(&mut rt.system, &seed);
        Ok(())
    }

    /// Removes `seed`; fails when it is not a seed.
    ///
    /// Requires the root origin, and the system must not be updating.
    pub fn remove_seed(rt: &mut Runtime, origin: Origin, seed: AccountId) -> (r: Result<(), DispatchError>)
        requires
            old(rt).seeds.wf(),
        ensures
            final(rt).same_except_seeds(*old(rt)),
            final(rt).seeds.wf(),
            origin != Origin::Root ==> r == Err::<(), DispatchError>(DispatchError::BadOrigin)
                && final(rt).unchanged(*old(rt)),
            origin == Origin::Root && old(rt).reputation@.system_info.step != TIRStep::Free ==> r
                == Err::<(), DispatchError>(DispatchError::Seeds(Error::StatusErr)) && final(rt).unchanged(*old(rt)),
            origin == Origin::Root && old(rt).reputation@.system_info.step == TIRStep::Free
                && !old(rt).seeds@.contains(seed) ==> r == Err::<(), DispatchError>(
                DispatchError::Seeds(Error::NotSeedUser),
            ) && final(rt).unchanged(*old(rt)),
            origin == Origin::Root && old(rt).reputation@.system_info.step == TIRStep::Free
                && old(rt).seeds@.contains(seed) ==> r is Ok && final(rt).seeds@.to_set() == old(
                rt,
            ).seeds@.to_set().remove(seed) && final(rt).system.events@ == old(rt).system.events@.push(
                RuntimeEvent::Seeds(Event::SeedRemoved(seed)),
            ),
    {
        ensure_root(origin)?;
        if !rt.reputation.is_step(&TIRStep::Free) {
            return Err(DispatchError::Seeds(Error::StatusErr));
        }
        if !rt.seeds.is_seed(&seed) {
            return Err(DispatchError::Seeds(Error::NotSeedUser));
        }
        let _ = rt.seeds.seeds.remove(&seed);
        rt.system.deposit_event(RuntimeEvent::Seeds(Event::SeedRemoved(seed)));
        Ok(())
    }
}

} // verus!
