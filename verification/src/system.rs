//! Blocks, origins, events and errors of the runtime.
use crate::primitives::{AccountId, BlockNumber};
use vstd::prelude::*;

verus! {

/// Who dispatches a call.
#[derive(Clone, Copy, PartialEq, Eq, Structural, Debug)]
pub enum Origin {
    Root,
    Signed(AccountId),
    Unsigned,
}

impl Origin {
    /// A call signed by `who`.
    pub fn signed(who: AccountId) -> (o: Origin)
        ensures
            o == Origin::Signed(who),
    {
        Origin::Signed(who)
    }

    /// A call of the root.
    pub fn root() -> (o: Origin)
        ensures
            o == Origin::Root,
    {
        Origin::Root
    }
}

/// The error of a dispatched call.
#[derive(Clone, Copy, PartialEq, Eq, Structural, Debug)]
pub enum DispatchError {
    /// The origin is not allowed to make the call.
    BadOrigin,
    Currency(crate::currency::Error),
    Tokens(crate::tokens::Error),
    Reputation(crate::reputation::Error),
    Seeds(crate::seeds::Error),
    Trust(crate::trust::Error),
    Challenges(crate::challenges::Error),
    RefreshReputation(crate::refresh_reputation::Error),
    RefreshSeeds(crate::refresh_seeds::Error),
}

/// The account that signed `origin`, or `BadOrigin`.
pub fn ensure_signed(origin: Origin) -> (r: Result<AccountId, DispatchError>)
    ensures
        r == (match origin {
            Origin::Signed(who) => Ok(who),
            _ => Err(DispatchError::BadOrigin),
        }),
{
    match origin {
        Origin::Signed(who) => Ok(who),
        _ => Err(DispatchError::BadOrigin),
    }
}

/// Succeeds when `origin` is the root.
pub fn ensure_root(origin: Origin) -> (r: Result<(), DispatchError>)
    ensures
        r == (if origin == Origin::Root {
            Ok::<(), DispatchError>(())
        } else {
            Err(DispatchError::BadOrigin)
        }),
{
    match origin {
        Origin::Root => Ok(()),
        _ => Err(DispatchError::BadOrigin),
    }
}

/// An event of the runtime.
#[derive(Clone, Copy, PartialEq, Eq, Structural, Debug)]
pub enum RuntimeEvent {
    Tokens(crate::tokens::Event),
    Reputation(crate::reputation::Event),
    Seeds(crate::seeds::Event),
    Trust(crate::trust::Event),
    Challenges(crate::challenges::Event),
    RefreshReputation(crate::refresh_reputation::Event),
    RefreshSeeds(crate::refresh_seeds::Event),
}

/// The current block and the events deposited so far.
pub struct System {
    pub block_number: BlockNumber,
    pub events: Vec<RuntimeEvent>,
}

impl System {
    /// A system at block `block_number` with no events.
    pub fn new(block_number: BlockNumber) -> (s: System)
        ensures
            s.block_number == block_number,
            s.events@ == Seq::<RuntimeEvent>::empty(),
    {
        System { block_number, events: Vec::new() }
    }

    /// The current block.
    pub fn block_number(&self) -> (n: BlockNumber)
        ensures
            n == self.block_number,
    {
        self.block_number
    }

    /// Moves to block `n`.
    pub fn set_block_number(&mut self, n: BlockNumber)
        ensures
            final(self).block_number == n,
            final(self).events@ == old(self).events@,
    {
        self.block_number = n;
    }

    /// Records `event`.
    pub fn deposit_event(&mut self, event: RuntimeEvent)
        ensures
            final(self).block_number == old(self).block_number,
            final(self).events@ == old(self).events@.push(event),
    {
        self.events.push(event);
    }

    /// Whether `event` has been deposited.
    pub fn has_event(&self, event: &RuntimeEvent) -> (b: bool)
        ensures
            b == self.events@.contains(*event),
    {
        let mut i: usize = 0;
        while i < self.events.len()
            invariant
                0 <= i <= self.events@.len(),
                forall|j: int| 0 <= j < i ==> self.events@[j] != *event,
            decreases self.events@.len() - i,
        {
            if self.events[i] == *event {
                assert(self.events@[i as int] == *event);
                return true;
            }
            i = i + 1;
        }
        false
    }
}

} // verus!
