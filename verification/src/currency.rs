//! The ledger of the base token: free balances and total issuance.
use crate::primitives::{AccountId, Balance};
use crate::storage::{get_or, Duplicate, StorageMap};
use crate::system::DispatchError;
use vstd::prelude::*;

verus! {

/// Errors of the ledger.
#[derive(Clone, Copy, PartialEq, Eq, Structural, Debug)]
pub enum Error {
    /// The balance is too low.
    BalanceTooLow,
    /// An amount would overflow.
    Overflow,
}

/// What contracts see of the ledger.
#[verifier::ext_equal]
pub struct CurrencyModel {
    pub balances: Map<AccountId, Balance>,
    pub total_issuance: Balance,
}

/// The free balance of `who`.
pub open spec fn free_of(c: CurrencyModel, who: AccountId) -> Balance {
    get_or(c.balances, who, 0u128)
}

/// The ledger after `from` sends `amount` to `to`, or the error.
pub open spec fn spec_transfer(c: CurrencyModel, from: AccountId, to: AccountId, amount: Balance) -> Result<
    CurrencyModel,
    DispatchError,
> {
    if amount == 0 || from == to {
        Ok(c)
    } else if free_of(c, from) < amount {
        Err(DispatchError::Currency(Error::BalanceTooLow))
    } else if free_of(c, to) + amount > u128::MAX {
        Err(DispatchError::Currency(Error::Overflow))
    } else {
        Ok(
            CurrencyModel {
                balances: c.balances.insert(from, (free_of(c, from) - amount) as u128).insert(
                    to,
                    (free_of(c, to) + amount) as u128,
                ),
                total_issuance: c.total_issuance,
            },
        )
    }
}

/// The ledger after `amount` is slashed from `who`, and the part that could not be slashed.
pub open spec fn spec_slash(c: CurrencyModel, who: AccountId, amount: Balance) -> (CurrencyModel, Balance) {
    let actual = if free_of(c, who) < amount {
        free_of(c, who)
    } else {
        amount
    };
    if actual == 0 {
        (c, amount)
    } else {
        (
            CurrencyModel {
                balances: c.balances.insert(who, (free_of(c, who) - actual) as u128),
                total_issuance: if c.total_issuance < actual {
                    0
                } else {
                    (c.total_issuance - actual) as u128
                },
            },
            (amount - actual) as u128,
        )
    }
}

/// A transfer moves value from one account to another: the two balances keep their sum,
/// every other balance and the total issuance stay as they were.
pub proof fn law_transfer_conserves(c: CurrencyModel, from: AccountId, to: AccountId, amount: Balance)
    requires
        spec_transfer(c, from, to, amount) is Ok,
    ensures
        ({
            let c2 = spec_transfer(c, from, to, amount)->Ok_0;
            &&& free_of(c2, from) + free_of(c2, to) == free_of(c, from) + free_of(c, to)
            &&& forall|a: AccountId| a != from && a != to ==> free_of(c2, a) == free_of(c, a)
            &&& c2.total_issuance == c.total_issuance
        }),
{
}

/// The balances of the base token.
pub struct Currency {
    pub balances: StorageMap<AccountId, Balance>,
    pub total_issuance: Balance,
}

impl Duplicate for u128 {
    fn duplicate(&self) -> (r: Self) {
        *self
    }
}

impl Duplicate for u64 {
    fn duplicate(&self) -> (r: Self) {
        *self
    }
}

impl Currency {
    /// What contracts see of the ledger.
    pub open spec fn view(&self) -> CurrencyModel {
        CurrencyModel { balances: self.balances@, total_issuance: self.total_issuance }
    }

    /// An empty ledger.
    pub fn new() -> (c: Currency)
        ensures
            c@.balances == Map::<AccountId, Balance>::empty(),
            c@.total_issuance == 0,
    {
        Currency { balances: StorageMap::new(), total_issuance: 0 }
    }

    /// A copy of the ledger.
    pub fn duplicate(&self) -> (c: Currency)
        ensures
            c@ == self@,
    {
        Currency { balances: self.balances.duplicate(), total_issuance: self.total_issuance }
    }

    /// The free balance of `who`.
    pub fn free_balance(&self, who: &AccountId) -> (b: Balance)
        ensures
            b == free_of(self@, *who),
    {
        match self.balances.get(who) {
            Some(b) => *b,
            None => 0,
        }
    }

    /// The total issuance.
    pub fn total_issuance(&self) -> (b: Balance)
        ensures
            b == self@.total_issuance,
    {
        self.total_issuance
    }

    /// Moves `amount` from `from` to `to`.
    pub fn transfer(&mut self, from: &AccountId, to: &AccountId, amount: Balance) -> (r: Result<
        (),
        DispatchError,
    >)
        ensures
            match spec_transfer(old(self)@, *from, *to, amount) {
                Ok(c) => r is Ok && final(self)@ == c,
                Err(e) => r == Err::<(), DispatchError>(e) && final(self)@ == old(self)@,
            },
    {
        if amount == 0 || *from == *to {
            return Ok(());
        }
        let from_balance = self.free_balance(from);
        if from_balance < amount {
            return Err(DispatchError::Currency(Error::BalanceTooLow));
        }
        let to_balance = self.free_balance(to);
        if to_balance > u128::MAX - amount {
            return Err(DispatchError::Currency(Error::Overflow));
        }
        self.balances.insert(*from, from_balance - amount);
        self.balances.insert(*to, to_balance + amount);
        Ok(())
    }

    /// Issues `amount` new tokens to `who`.
    pub fn deposit(&mut self, who: &AccountId, amount: Balance) -> (r: Result<(), DispatchError>)
        ensures
            (old(self)@.total_issuance + amount <= u128::MAX && free_of(old(self)@, *who) + amount
                <= u128::MAX) ==> r is Ok && final(self)@ == (CurrencyModel {
                balances: old(self)@.balances.insert(
                    *who,
                    (free_of(old(self)@, *who) + amount) as u128,
                ),
                total_issuance: (old(self)@.total_issuance + amount) as u128,
            }),
            !(old(self)@.total_issuance + amount <= u128::MAX && free_of(old(self)@, *who) + amount
                <= u128::MAX) ==> r == Err::<(), DispatchError>(
                DispatchError::Currency(Error::Overflow),
            ) && final(self)@ == old(self)@,
    {
        let b = self.free_balance(who);
        if self.total_issuance > u128::MAX - amount || b > u128::MAX - amount {
            return Err(DispatchError::Currency(Error::Overflow));
        }
        self.total_issuance = self.total_issuance + amount;
        self.balances.insert(*who, b + amount);
        Ok(())
    }

    /// Removes up to `amount` from `who`; returns the part that could not be removed.
    pub fn slash(&mut self, who: &AccountId, amount: Balance) -> (remaining: Balance)
        ensures
            (final(self)@, remaining) == spec_slash(old(self)@, *who, amount),
    {
        let b = self.free_balance(who);
        let actual = if b < amount {
            b
        } else {
            amount
        };
        if actual == 0 {
            return amount;
        }
        self.balances.insert(*who, b - actual);
        self.total_issuance = if self.total_issuance < actual {
            0
        } else {
            self.total_issuance - actual
        };
        amount - actual
    }
}

} // verus!
