//! Social currency of users, staking and system rewards.
//!
//! All funds are held in a social pool rather than being sent to users at once:
//! `pending` funds are withdrawn by their owner with `claim`.
use crate::currency::{spec_slash, spec_transfer, Currency, CurrencyModel, free_of};
use crate::per_social_currency::{pre_burn, pre_fee, pre_reserved, pre_share, MIN_TRUST_COUNT};
use crate::perbill::spec_mul_floor;
use crate::primitives::{AccountId, Balance};
use crate::runtime::Runtime;
use crate::storage::{get_or, Duplicate, StorageMap};
use crate::system::{ensure_signed, DispatchError, Origin, RuntimeEvent};
use vstd::prelude::*;

verus! {

/// The social account of a user.
#[derive(Clone, Copy, PartialEq, Eq, Structural, Debug)]
pub struct SocialAccount {
    /// Funds marked for the user that the user has not yet withdrawn.
    pub pending: Balance,
    /// Balance of social tokens.
    pub social: Balance,
}

impl Duplicate for SocialAccount {
    fn duplicate(&self) -> (r: Self) {
        *self
    }
}

/// An account with nothing in it.
pub open spec fn empty_account() -> SocialAccount {
    SocialAccount { pending: 0, social: 0 }
}

impl SocialAccount {
    /// The total balance of the account, saturating.
    pub fn total(&self) -> (r: Balance)
        ensures
            r == (if self.pending + self.social > u128::MAX {
                u128::MAX
            } else {
                (self.pending + self.social) as u128
            }),
    {
        self.pending.saturating_add(self.social)
    }
}

/// The constants of the pallet.
#[derive(Clone, Copy, PartialEq, Eq, Structural, Debug)]
pub struct Config {
    /// The account that holds the pool.
    pub social_pool: AccountId,
}

/// Errors of the pallet.
#[derive(Clone, Copy, PartialEq, Eq, Structural, Debug)]
pub enum Error {
    Overflow,
    /// Bonus too low.
    BonusTooLow,
    /// Total staking amount too low.
    StakingAmountTooLow,
}

/// Events of the pallet.
#[derive(Clone, Copy, PartialEq, Eq, Structural, Debug)]
pub enum Event {
    /// A social transfer \[from, to, amount\].
    TransferSocial(AccountId, AccountId, Balance),
    /// `pending` moved to the free balance \[who\].
    Claim(AccountId),
}

/// What contracts see of the pallet's storage.
#[verifier::ext_equal]
pub struct TokensModel {
    pub accounts: Map<AccountId, SocialAccount>,
    pub bonus: Balance,
    pub total_staking: Balance,
}

/// The storage of the pallet.
pub struct Pallet {
    pub config: Config,
    pub accounts: StorageMap<AccountId, SocialAccount>,
    pub bonus: Balance,
    pub total_staking: Balance,
}

/// The social account of `who`.
pub open spec fn account_of(t: TokensModel, who: AccountId) -> SocialAccount {
    get_or(t.accounts, who, empty_account())
}

/// `t` with the account of `who` replaced.
pub open spec fn with_account(t: TokensModel, who: AccountId, a: SocialAccount) -> TokensModel {
    TokensModel { accounts: t.accounts.insert(who, a), ..t }
}

/// `t` with the pending balance of `who` set to `amount`.
pub open spec fn with_pending(t: TokensModel, who: AccountId, amount: Balance) -> TokensModel {
    with_account(t, who, SocialAccount { pending: amount, ..account_of(t, who) })
}

/// `t` with the social balance of `who` set to `amount`.
pub open spec fn with_social(t: TokensModel, who: AccountId, amount: Balance) -> TokensModel {
    with_account(t, who, SocialAccount { social: amount, ..account_of(t, who) })
}

/// `a + b`, saturating.
pub open spec fn sat_add(a: u128, b: u128) -> u128 {
    if a + b > u128::MAX {
        u128::MAX
    } else {
        (a + b) as u128
    }
}

/// `a - b`, saturating.
pub open spec fn sat_sub(a: u128, b: u128) -> u128 {
    if a < b {
        0
    } else {
        (a - b) as u128
    }
}

/// Pays `amount` on behalf of `from`, using its pending balance first and its free balance
/// for the rest, which goes to the pool.
pub open spec fn spec_pay_with_pending(
    t: TokensModel,
    c: CurrencyModel,
    pool: AccountId,
    from: AccountId,
    amount: Balance,
) -> Result<(TokensModel, CurrencyModel), DispatchError> {
    let p = account_of(t, from).pending;
    if p >= amount {
        Ok((with_pending(t, from, (p - amount) as u128), c))
    } else {
        match spec_transfer(c, from, pool, (amount - p) as u128) {
            Ok(c2) => Ok((with_pending(t, from, 0), c2)),
            Err(e) => Err(e),
        }
    }
}

/// `who` stakes `amount`.
pub open spec fn spec_staking(
    t: TokensModel,
    c: CurrencyModel,
    pool: AccountId,
    who: AccountId,
    amount: Balance,
) -> Result<(TokensModel, CurrencyModel), DispatchError> {
    match spec_pay_with_pending(t, c, pool, who, amount) {
        Ok((t2, c2)) => Ok((TokensModel { total_staking: sat_add(t2.total_staking, amount), ..t2 }, c2)),
        Err(e) => Err(e),
    }
}

/// `amount` of the stakes is released to `who`.
pub open spec fn spec_release(
    t: TokensModel,
    c: CurrencyModel,
    pool: AccountId,
    who: AccountId,
    amount: Balance,
) -> Result<(TokensModel, CurrencyModel), DispatchError> {
    if t.total_staking < amount {
        Err(DispatchError::Tokens(Error::StakingAmountTooLow))
    } else {
        match spec_transfer(c, pool, who, amount) {
            Ok(c2) => Ok((TokensModel { total_staking: (t.total_staking - amount) as u128, ..t }, c2)),
            Err(e) => Err(e),
        }
    }
}

/// `from` sends `amount` to the social account of `to`.
pub open spec fn spec_transfer_social(
    t: TokensModel,
    c: CurrencyModel,
    pool: AccountId,
    from: AccountId,
    to: AccountId,
    amount: Balance,
) -> Result<(TokensModel, CurrencyModel), DispatchError> {
    let to_social = account_of(t, to).social + amount;
    if to_social > u128::MAX {
        Err(DispatchError::Tokens(Error::Overflow))
    } else {
        match spec_pay_with_pending(t, c, pool, from, amount) {
            Ok((t2, c2)) => Ok((with_social(t2, to, to_social as u128), c2)),
            Err(e) => Err(e),
        }
    }
}

/// `who` withdraws its pending balance from the pool.
pub open spec fn spec_claim(t: TokensModel, c: CurrencyModel, pool: AccountId, who: AccountId) -> Result<
    (TokensModel, CurrencyModel),
    DispatchError,
> {
    match spec_transfer(c, pool, who, account_of(t, who).pending) {
        Ok(c2) => Ok((with_pending(t, who, 0), c2)),
        Err(e) => Err(e),
    }
}

/// `who` stakes `amount` and adds it to the bonus.
pub open spec fn spec_increase_bonus(
    t: TokensModel,
    c: CurrencyModel,
    pool: AccountId,
    who: AccountId,
    amount: Balance,
) -> Result<(TokensModel, CurrencyModel), DispatchError> {
    match spec_staking(t, c, pool, who, amount) {
        Ok((t2, c2)) => if t2.bonus + amount > u128::MAX {
            Err(DispatchError::Tokens(Error::Overflow))
        } else {
            Ok((TokensModel { bonus: (t2.bonus + amount) as u128, ..t2 }, c2))
        },
        Err(e) => Err(e),
    }
}

/// The number of times `a` occurs in `s`.
pub open spec fn occurrences(s: Seq<AccountId>, a: AccountId) -> nat
    decreases s.len(),
{
    if s.len() == 0 {
        0
    } else {
        occurrences(s.drop_last(), a) + if s.last() == a {
            1nat
        } else {
            0nat
        }
    }
}

/// The share that each trusted user receives out of `total`.
pub open spec fn spec_share_amount(total: Balance, count: nat) -> Balance {
    let d = if count < MIN_TRUST_COUNT {
        MIN_TRUST_COUNT as nat
    } else {
        count
    };
    ((total as int) / (d as int)) as u128
}

/// `x` capped at the largest balance.
pub open spec fn clamp(x: int) -> u128 {
    if x > u128::MAX {
        u128::MAX
    } else {
        x as u128
    }
}

/// The account of `a` after `each` has been credited to its social balance once for every
/// occurrence of `a` in `s`, saturating.
pub open spec fn credited(t: TokensModel, s: Seq<AccountId>, each: Balance, a: AccountId) -> SocialAccount {
    SocialAccount {
        social: clamp(account_of(t, a).social + each * occurrences(s, a)),
        ..account_of(t, a)
    }
}

/// The social account of `a` after `who` shares `total` among `targets` and reserves `reserved`;
/// `who` keeps what is not handed out, all of `total` when there is no target.
pub open spec fn shared_account(
    t: TokensModel,
    who: AccountId,
    targets: Seq<AccountId>,
    total: Balance,
    reserved: Balance,
    a: AccountId,
) -> SocialAccount {
    let sharing = targets.len() > 0 && total != 0;
    let each = spec_share_amount(total, targets.len());
    if a == who {
        SocialAccount {
            pending: reserved,
            social: if sharing {
                sat_sub(total, clamp(each * targets.len()))
            } else {
                total
            },
        }
    } else if sharing {
        credited(t, targets, each, a)
    } else {
        account_of(t, a)
    }
}

/// The social accounts after `who` shares `total` among `targets` and reserves `reserved`.
pub open spec fn spec_share_accounts(
    t: TokensModel,
    who: AccountId,
    targets: Seq<AccountId>,
    total: Balance,
    reserved: Balance,
) -> Map<AccountId, SocialAccount> {
    let sharing = targets.len() > 0 && total != 0;
    Map::new(
        |a: AccountId| t.accounts.contains_key(a) || a == who || (sharing && targets.contains(a)),
        |a: AccountId| shared_account(t, who, targets, total, reserved, a),
    )
}

/// The pallet after `who` shares its social balance among `targets`, with the fee that is
/// staked and the amount that is burnt.
pub open spec fn spec_share(t: TokensModel, who: AccountId, targets: Seq<AccountId>) -> (TokensModel, Balance, Balance) {
    let (share, reserved, burn, fee, reward) = share_parts(account_of(t, who).social);
    (
        TokensModel {
            accounts: spec_share_accounts(t, who, targets, share, reserved),
            bonus: sat_add(t.bonus, reward),
            total_staking: sat_add(t.total_staking, fee),
        },
        fee,
        burn,
    )
}

/// The parts of a social balance of `s`: \[share, reserved, burn, fee, reward\].
pub open spec fn share_parts(s: Balance) -> (Balance, Balance, Balance, Balance, Balance) {
    let share = spec_mul_floor(100_000_000, s as int) as u128;
    let reserved = spec_mul_floor(100_000_000, s as int) as u128;
    let burn = spec_mul_floor(100_000_000, s as int) as u128;
    let fee = spec_mul_floor(100_000_000, s as int) as u128;
    let reward = sat_sub(sat_sub(sat_sub(sat_sub(s, share), reserved), burn), fee);
    (share, reserved, burn, fee, reward)
}

/// The parts of a social balance add up to the balance: sharing, reserving, burning and the
/// fee never take more than the user has, and the rest goes to the bonus.
pub proof fn law_share_parts_sum(s: Balance)
    ensures
        ({
            let (share, reserved, burn, fee, reward) = share_parts(s);
            share + reserved + burn + fee + reward == s
        }),
{
    let p = spec_mul_floor(100_000_000, s as int);
    assert(p * 10 <= s) by (nonlinear_arith)
        requires
            p == (s * 100_000_000) / 1_000_000_000int,
            s >= 0,
    ;
    assert(p >= 0) by (nonlinear_arith)
        requires
            p == (s * 100_000_000) / 1_000_000_000int,
            s >= 0,
    ;
}

impl Pallet {
    /// What contracts see of the storage.
    pub open spec fn view(&self) -> TokensModel {
        TokensModel { accounts: self.accounts@, bonus: self.bonus, total_staking: self.total_staking }
    }

    /// Empty storage with the given constants.
    pub fn new(config: Config) -> (p: Pallet)
        ensures
            p.config == config,
            p@.accounts == Map::<AccountId, SocialAccount>::empty(),
            p@.bonus == 0,
            p@.total_staking == 0,
    {
        Pallet { config, accounts: StorageMap::new(), bonus: 0, total_staking: 0 }
    }

    /// A copy of the storage.
    pub fn duplicate(&self) -> (p: Pallet)
        ensures
            p.config == self.config,
            p@ == self@,
    {
        Pallet {
            config: self.config,
            accounts: self.accounts.duplicate(),
            bonus: self.bonus,
            total_staking: self.total_staking,
        }
    }

    /// The social account of `who`.
    pub fn accounts(&self, who: &AccountId) -> (a: SocialAccount)
        ensures
            a == account_of(self@, *who),
    {
        match self.accounts.get(who) {
            Some(a) => *a,
            None => SocialAccount { pending: 0, social: 0 },
        }
    }

    /// The bonus.
    pub fn get_bonus(&self) -> (b: Balance)
        ensures
            b == self@.bonus,
    {
        self.bonus
    }

    /// The total staked.
    pub fn total_staking(&self) -> (b: Balance)
        ensures
            b == self@.total_staking,
    {
        self.total_staking
    }

    /// Sets the social balance of `who`; the caller maintains the total issuance.
    pub fn set_social_balance(&mut self, who: &AccountId, amount: Balance)
        ensures
            final(self)@ == with_social(old(self)@, *who, amount),
            final(self).config == old(self).config,
    {
        let a = self.accounts(who);
        self.accounts.insert(*who, SocialAccount { social: amount, ..a });
    }

    /// Sets the pending balance of `who`; the caller maintains the total issuance.
    pub fn set_pending_balance(&mut self, who: &AccountId, amount: Balance)
        ensures
            final(self)@ == with_pending(old(self)@, *who, amount),
            final(self).config == old(self).config,
    {
        let a = self.accounts(who);
        self.accounts.insert(*who, SocialAccount { pending: amount, ..a });
    }

    /// Adds `amount` to the total staked, saturating.
    fn do_staking(&mut self, amount: &Balance)
        ensures
            final(self)@ == (TokensModel {
                total_staking: sat_add(old(self)@.total_staking, *amount),
                ..old(self)@
            }),
            final(self).config == old(self).config,
    {
        self.total_staking = self.total_staking.saturating_add(*amount);
    }

    /// Adds `amount` to the bonus, saturating.
    fn add_bonus(&mut self, amount: &Balance)
        ensures
            final(self)@ == (TokensModel { bonus: sat_add(old(self)@.bonus, *amount), ..old(self)@ }),
            final(self).config == old(self).config,
    {
        self.bonus = self.bonus.saturating_add(*amount);
    }

    /// The current bonus.
    pub fn get_bonus_amount(&self) -> (b: Balance)
        ensures
            b == self@.bonus,
    {
        self.bonus
    }

    /// Free balance plus pending and social balances of `who`, saturating.
    pub fn actual_balance(&self, cur: &Currency, who: &AccountId) -> (b: Balance)
        ensures
            b == sat_add(
                free_of(cur@, *who),
                sat_add(account_of(self@, *who).pending, account_of(self@, *who).social),
            ),
    {
        let free = cur.free_balance(who);
        free.saturating_add(self.accounts(who).total())
    }

    /// The pending balance of `who`.
    pub fn pending_balance(&self, who: &AccountId) -> (b: Balance)
        ensures
            b == account_of(self@, *who).pending,
    {
        self.accounts(who).pending
    }

    /// The social balance of `who`.
    pub fn social_balance(&self, who: &AccountId) -> (b: Balance)
        ensures
            b == account_of(self@, *who).social,
    {
        self.accounts(who).social
    }

    /// The free balance of `who`.
    pub fn free_balance(&self, cur: &Currency, who: &AccountId) -> (b: Balance)
        ensures
            b == free_of(cur@, *who),
    {
        cur.free_balance(who)
    }

    /// Pays `amount` on behalf of `from`, using `pending` first.
    pub fn pay_with_pending(&mut self, cur: &mut Currency, from: &AccountId, amount: Balance) -> (r:
        Result<(), DispatchError>)
        ensures
            final(self).config == old(self).config,
            match spec_pay_with_pending(old(self)@, old(cur)@, old(self).config.social_pool, *from, amount) {
                Ok((t, c)) => r is Ok && final(self)@ == t && final(cur)@ == c,
                Err(e) => r == Err::<(), DispatchError>(e) && final(self)@ == old(self)@ && final(cur)@
                    == old(cur)@,
            },
    {
        let pending = self.pending_balance(from);
        if pending >= amount {
            self.set_pending_balance(from, pending - amount);
        } else {
            let pool = self.config.social_pool;
            cur.transfer(from, &pool, amount - pending)?;
            self.set_pending_balance(from, 0);
        }
        Ok(())
    }

    /// `from` sends `amount` to the social account of `to`.
    pub fn do_transfer_social(
        &mut self,
        cur: &mut Currency,
        from: &AccountId,
        to: &AccountId,
        amount: Balance,
    ) -> (r: Result<(), DispatchError>)
        ensures
            final(self).config == old(self).config,
            match spec_transfer_social(old(self)@, old(cur)@, old(self).config.social_pool, *from, *to, amount) {
                Ok((t, c)) => r is Ok && final(self)@ == t && final(cur)@ == c,
                Err(e) => r == Err::<(), DispatchError>(e) && final(self)@ == old(self)@ && final(cur)@
                    == old(cur)@,
            },
    {
        let to_social = self.social_balance(to);
        if to_social > u128::MAX - amount {
            return Err(DispatchError::Tokens(Error::Overflow));
        }
        self.pay_with_pending(cur, from, amount)?;
        self.set_social_balance(to, to_social + amount);
        Ok(())
    }

    /// `who` stakes `amount`.
    pub fn staking(&mut self, cur: &mut Currency, who: &AccountId, amount: &Balance) -> (r: Result<
        (),
        DispatchError,
    >)
        ensures
            final(self).config == old(self).config,
            match spec_staking(old(self)@, old(cur)@, old(self).config.social_pool, *who, *amount) {
                Ok((t, c)) => r is Ok && final(self)@ == t && final(cur)@ == c,
                Err(e) => r == Err::<(), DispatchError>(e) && final(self)@ == old(self)@ && final(cur)@
                    == old(cur)@,
            },
    {
        self.pay_with_pending(cur, who, *amount)?;
        self.do_staking(amount);
        Ok(())
    }

    /// Releases `amount` of the stakes to `who`.
    pub fn release(&mut self, cur: &mut Currency, who: &AccountId, amount: &Balance) -> (r: Result<
        (),
        DispatchError,
    >)
        ensures
            final(self).config == old(self).config,
            match spec_release(old(self)@, old(cur)@, old(self).config.social_pool, *who, *amount) {
                Ok((t, c)) => r is Ok && final(self)@ == t && final(cur)@ == c,
                Err(e) => r == Err::<(), DispatchError>(e) && final(self)@ == old(self)@ && final(cur)@
                    == old(cur)@,
            },
    {
        if self.total_staking < *amount {
            return Err(DispatchError::Tokens(Error::StakingAmountTooLow));
        }
        let total_staking = self.total_staking - *amount;
        let pool = self.config.social_pool;
        cur.transfer(&pool, who, *amount)?;
        self.total_staking = total_staking;
        Ok(())
    }

    /// `who` withdraws its pending balance.
    pub fn do_claim(&mut self, cur: &mut Currency, who: &AccountId) -> (r: Result<(), DispatchError>)
        ensures
            final(self).config == old(self).config,
            match spec_claim(old(self)@, old(cur)@, old(self).config.social_pool, *who) {
                Ok((t, c)) => r is Ok && final(self)@ == t && final(cur)@ == c,
                Err(e) => r == Err::<(), DispatchError>(e) && final(self)@ == old(self)@ && final(cur)@
                    == old(cur)@,
            },
    {
        let pending = self.pending_balance(who);
        let pool = self.config.social_pool;
        cur.transfer(&pool, who, pending)?;
        self.set_pending_balance(who, 0);
        Ok(())
    }

    /// `who` stakes `amount` into the bonus.
    pub fn increase_bonus(&mut self, cur: &mut Currency, who: &AccountId, amount: &Balance) -> (r:
        Result<(), DispatchError>)
        ensures
            final(self).config == old(self).config,
            match spec_increase_bonus(old(self)@, old(cur)@, old(self).config.social_pool, *who, *amount) {
                Ok((t, c)) => r is Ok && final(self)@ == t && final(cur)@ == c,
                Err(e) => r == Err::<(), DispatchError>(e) && final(self)@ == old(self)@ && final(cur)@
                    == old(cur)@,
            },
    {
        let saved = self.duplicate();
        let saved_cur = cur.duplicate();
        self.staking(cur, who, amount)?;
        match self.try_add_bonus(amount) {
            Ok(_) => Ok(()),
            Err(e) => {
                *self = saved;
                *cur = saved_cur;
                Err(e)
            },
        }
    }

    /// Adds `amount` to the bonus; fails when the bonus would overflow.
    fn try_add_bonus(&mut self, amount: &Balance) -> (r: Result<(), DispatchError>)
        ensures
            final(self).config == old(self).config,
            old(self)@.bonus + *amount <= u128::MAX ==> r is Ok && final(self)@ == (TokensModel {
                bonus: (old(self)@.bonus + *amount) as u128,
                ..old(self)@
            }),
            old(self)@.bonus + *amount > u128::MAX ==> r == Err::<(), DispatchError>(
                DispatchError::Tokens(Error::Overflow),
            ) && final(self)@ == old(self)@,
    {
        if self.bonus > u128::MAX - *amount {
            return Err(DispatchError::Tokens(Error::Overflow));
        }
        self.bonus = self.bonus + *amount;
        Ok(())
    }

    /// Takes `amount` out of the bonus; fails when the bonus is smaller.
    fn try_cut_bonus(&mut self, amount: &Balance) -> (r: Result<(), DispatchError>)
        ensures
            final(self).config == old(self).config,
            old(self)@.bonus >= *amount ==> r is Ok && final(self)@ == (TokensModel {
                bonus: (old(self)@.bonus - *amount) as u128,
                ..old(self)@
            }),
            old(self)@.bonus < *amount ==> r == Err::<(), DispatchError>(
                DispatchError::Tokens(Error::BonusTooLow),
            ) && final(self)@ == old(self)@,
    {
        if self.bonus < *amount {
            return Err(DispatchError::Tokens(Error::BonusTooLow));
        }
        self.bonus = self.bonus - *amount;
        Ok(())
    }

    /// Takes `amount` out of the bonus; the caller maintains the balance of amounts.
    pub fn cut_bonus(&mut self, amount: &Balance) -> (r: Result<(), DispatchError>)
        ensures
            final(self).config == old(self).config,
            old(self)@.bonus >= *amount ==> r is Ok && final(self)@ == (TokensModel {
                bonus: (old(self)@.bonus - *amount) as u128,
                ..old(self)@
            }),
            old(self)@.bonus < *amount ==> r == Err::<(), DispatchError>(
                DispatchError::Tokens(Error::BonusTooLow),
            ) && final(self)@ == old(self)@,
    {
        self.try_cut_bonus(amount)
    }

    /// Credits `each` to the social account of every target and sets the account of `from`.
    fn share_and_reserv(
        &mut self,
        from: &AccountId,
        trustees: &Vec<AccountId>,
        total_share_amount: Balance,
        reserved_amount: Balance,
    )
        ensures
            final(self).config == old(self).config,
            final(self)@.bonus == old(self)@.bonus,
            final(self)@.total_staking == old(self)@.total_staking,
            final(self)@.accounts == spec_share_accounts(old(self)@, *from, trustees@, total_share_amount, reserved_amount),
    {
        let ghost t0 = self@;
        let mut remaining_share: Balance = total_share_amount;
        if trustees.len() > 0 && total_share_amount != 0 {
            let n = trustees.len() as u128;
            let d: u128 = if n < (MIN_TRUST_COUNT as u128) {
                MIN_TRUST_COUNT as u128
            } else {
                n
            };
            let share_amount = total_share_amount / d;
            assert(share_amount == spec_share_amount(total_share_amount, trustees@.len()));
            proof {
                assert forall|a: AccountId| #![trigger account_of(self@, a)]
                    account_of(self@, a) == credited(t0, trustees@.subrange(0, 0), share_amount, a) by {
                    assert(trustees@.subrange(0, 0) =~= Seq::<AccountId>::empty());
                    assert(occurrences(Seq::<AccountId>::empty(), a) == 0);
                    assert(share_amount * 0 == 0);
                }
            }
            let mut i: usize = 0;
            while i < trustees.len()
                invariant
                    0 <= i <= trustees@.len(),
                    self.config == old(self).config,
                    self@.bonus == t0.bonus,
                    self@.total_staking == t0.total_staking,
                    forall|a: AccountId|
                        #![trigger account_of(self@, a)]
                        account_of(self@, a) == credited(t0, trustees@.subrange(0, i as int), share_amount, a),
                    forall|a: AccountId|
                        #![trigger self@.accounts.contains_key(a)]
                        self@.accounts.contains_key(a) <==> (t0.accounts.contains_key(a)
                            || trustees@.subrange(0, i as int).contains(a)),
                decreases trustees@.len() - i,
            {
                let trustee = trustees[i];
                let a = self.accounts(&trustee);
                let ghost before = self@;
                self.accounts.insert(trustee, SocialAccount { social: a.social.saturating_add(share_amount), ..a });
                proof {
                    let s0 = trustees@.subrange(0, i as int);
                    let s1 = trustees@.subrange(0, i + 1);
                    assert(s1.drop_last() =~= s0);
                    assert(s1.last() == trustee);
                    assert forall|b: AccountId| #![trigger account_of(self@, b)]
                        account_of(self@, b) == credited(t0, s1, share_amount, b) by {
                        assert(account_of(before, b) == credited(t0, s0, share_amount, b));
                        if b == trustee {
                            assert(occurrences(s1, b) == occurrences(s0, b) + 1);
                            lemma_mul_succ(share_amount as int, occurrences(s0, b) as int);
                            lemma_mul_nonneg(share_amount as int, occurrences(s0, b) as int);
                        } else {
                            assert(occurrences(s1, b) == occurrences(s0, b));
                        }
                    }
                    assert forall|b: AccountId| #![trigger self@.accounts.contains_key(b)]
                        self@.accounts.contains_key(b) <==> (t0.accounts.contains_key(b) || s1.contains(b)) by {
                        if s1.contains(b) && b != trustee {
                            let j = choose|j: int| 0 <= j < s1.len() && s1[j] == b;
                            assert(s0[j] == b);
                        }
                        if s0.contains(b) {
                            let j = choose|j: int| 0 <= j < s0.len() && s0[j] == b;
                            assert(s1[j] == b);
                        }
                        assert(s1[i as int] == trustee);
                    }
                }
                i = i + 1;
            }
            proof {
                assert(trustees@.subrange(0, trustees@.len() as int) =~= trustees@);
                lemma_share_total(share_amount as int, trustees@.len() as int, total_share_amount as int, d as int);
                assert forall|b: AccountId| #![trigger self@.accounts.contains_key(b)]
                    self@.accounts.contains_key(b) <==> (t0.accounts.contains_key(b) || trustees@.contains(b)) by {
                }
            }
            let spent = share_amount * (trustees.len() as u128);
            remaining_share = total_share_amount - spent;
            proof {
                assert(remaining_share == sat_sub(total_share_amount, clamp(share_amount * trustees@.len())));
                assert forall|a: AccountId| a != *from implies #[trigger] account_of(self@, a) == shared_account(
                    t0,
                    *from,
                    trustees@,
                    total_share_amount,
                    reserved_amount,
                    a,
                ) by {
                    assert(account_of(self@, a) == credited(t0, trustees@, share_amount, a));
                }
            }
        }
        let ghost mid = self@;
        let ghost sharing = trustees@.len() > 0 && total_share_amount != 0;
        assert(forall|b: AccountId| #[trigger] mid.accounts.contains_key(b) <==> (t0.accounts.contains_key(b) || (
        sharing && trustees@.contains(b))));
        self.accounts.insert(*from, SocialAccount { pending: reserved_amount, social: remaining_share });
        proof {
            assert forall|a: AccountId| #![trigger account_of(self@, a)]
                account_of(self@, a) == shared_account(
                    t0,
                    *from,
                    trustees@,
                    total_share_amount,
                    reserved_amount,
                    a,
                ) by {
                if a != *from {
                    assert(account_of(self@, a) == account_of(mid, a));
                }
            }
            let target = spec_share_accounts(t0, *from, trustees@, total_share_amount, reserved_amount);
            assert forall|a: AccountId| #[trigger] target.contains_key(a) == self@.accounts.contains_key(a) by {
                if a != *from {
                    assert(self@.accounts.contains_key(a) == mid.accounts.contains_key(a));
                }
            }
            assert forall|a: AccountId| #[trigger] self@.accounts.contains_key(a) implies self@.accounts[a] == target[a] by {
                assert(account_of(self@, a) == self@.accounts[a]);
                assert(target.contains_key(a));
            }
            assert(self@.accounts =~= target);
        }
    }

    /// Splits the social balance of `who`: a part is shared among `targets`, a part reserved
    /// as pending, a part burnt, a part staked as the fee, and the rest goes to the bonus.
    /// Returns the fee.
    pub fn share(&mut self, cur: &mut Currency, who: &AccountId, targets: &Vec<AccountId>) -> (fee:
        Balance)
        ensures
            final(self).config == old(self).config,
            ({
                let (t, f, burn) = spec_share(old(self)@, *who, targets@);
                &&& fee == f
                &&& final(self)@ == t
                &&& final(cur)@ == spec_slash(old(cur)@, old(self).config.social_pool, burn).0
            }),
    {
        let social_balance = self.social_balance(who);
        let total_share_amount = pre_share().mul_floor(social_balance);
        let reserved_amount = pre_reserved().mul_floor(social_balance);
        let burn_amount = pre_burn().mul_floor(social_balance);
        let fee_amount = pre_fee().mul_floor(social_balance);
        let pre_reward = social_balance.saturating_sub(total_share_amount).saturating_sub(
            reserved_amount,
        ).saturating_sub(burn_amount).saturating_sub(fee_amount);
        let pool = self.config.social_pool;
        let _ = cur.slash(&pool, burn_amount);
        self.share_and_reserv(who, targets, total_share_amount, reserved_amount);
        let ghost after_share = self@;
        self.do_staking(&fee_amount);
        self.add_bonus(&pre_reward);
        proof {
            let (share, reserved, burn, f, reward) = share_parts(social_balance);
            assert(share == total_share_amount);
            assert(reserved == reserved_amount);
            assert(burn == burn_amount);
            assert(f == fee_amount);
            assert(reward == pre_reward);
            assert(self@.accounts == after_share.accounts);
            assert(self@ =~= spec_share(old(self)@, *who, targets@).0);
        }
        fee_amount
    }

    /// Sends some balance to another social account.
    ///
    /// The dispatch origin for this call must be signed by the sender.
    pub fn transfer_social(rt: &mut Runtime, origin: Origin, dest: AccountId, amount: Balance) -> (r:
        Result<(), DispatchError>)
        ensures
            final(rt).same_except_tokens_currency(*old(rt)),
            match origin {
                Origin::Signed(from) => match spec_transfer_social(
                    old(rt).tokens@,
                    old(rt).currency@,
                    old(rt).tokens.config.social_pool,
                    from,
                    dest,
                    amount,
                ) {
                    Ok((t, c)) => r is Ok && final(rt).tokens@ == t && final(rt).currency@ == c
                        && final(rt).system.events@ == old(rt).system.events@.push(
                        RuntimeEvent::Tokens(Event::TransferSocial(from, dest, amount)),
                    ),
                    Err(e) => r == Err::<(), DispatchError>(e) && final(rt).unchanged(*old(rt)),
                },
                _ => r == Err::<(), DispatchError>(DispatchError::BadOrigin) && final(rt).unchanged(
                    *old(rt),
                ),
            },
    {
        let from = ensure_signed(origin)?;
        rt.tokens.do_transfer_social(&mut rt.currency, &from, &dest, amount)?;
        rt.system.deposit_event(RuntimeEvent::Tokens(Event::TransferSocial(from, dest, amount)));
        Ok(())
    }

    /// Moves the caller's pending balance to its free balance.
    pub fn claim(rt: &mut Runtime, origin: Origin) -> (r: Result<(), DispatchError>)
        ensures
            final(rt).same_except_tokens_currency(*old(rt)),
            match origin {
                Origin::Signed(who) => match spec_claim(
                    old(rt).tokens@,
                    old(rt).currency@,
                    old(rt).tokens.config.social_pool,
                    who,
                ) {
                    Ok((t, c)) => r is Ok && final(rt).tokens@ == t && final(rt).currency@ == c
                        && final(rt).system.events@ == old(rt).system.events@.push(
                        RuntimeEvent::Tokens(Event::Claim(who)),
                    ),
                    Err(e) => r == Err::<(), DispatchError>(e) && final(rt).unchanged(*old(rt)),
                },
                _ => r == Err::<(), DispatchError>(DispatchError::BadOrigin) && final(rt).unchanged(
                    *old(rt),
                ),
            },
    {
        let who = ensure_signed(origin)?;
        rt.tokens.do_claim(&mut rt.currency, &who)?;
        rt.system.deposit_event(RuntimeEvent::Tokens(Event::Claim(who)));
        Ok(())
    }
}

/// `x * (n + 1) == x * n + x`.
proof fn lemma_mul_succ(x: int, n: int)
    ensures
        x * (n + 1) == x * n + x,
{
    assert(x * (n + 1) == x * n + x) by (nonlinear_arith);
}

/// A product of natural numbers is a natural number.
proof fn lemma_mul_nonneg(x: int, n: int)
    requires
        x >= 0,
        n >= 0,
    ensures
        x * n >= 0,
{
    assert(x * n >= 0) by (nonlinear_arith)
        requires
            x >= 0,
            n >= 0,
    ;
}

/// The shares given out do not exceed the total: `each * n <= total`.
proof fn lemma_share_total(each: int, n: int, total: int, d: int)
    requires
        0 < n <= d,
        each == total / d,
        total >= 0,
    ensures
        each * n <= total,
        each >= 0,
{
    assert(each * n <= total) by (nonlinear_arith)
        requires
            0 < n <= d,
            each == total / d,
            total >= 0,
    {
        assert(each * d <= total);
        assert(each >= 0);
        assert(each * n <= each * d);
    }
    assert(each >= 0) by (nonlinear_arith)
        requires
            d > 0,
            each == total / d,
            total >= 0,
    ;
}

} // verus!
