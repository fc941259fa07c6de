//! The fungible ledger state and its pure state transitions.
//!
//! `TokenLedger` is the mathematical model of a ledger. Each transition is a
//! spec function from a ledger to a ledger or an error; the executable
//! operations of `TokenState` are proved to compute exactly these functions
//! and to leave the state untouched when they fail.

use crate::address::ActorID;
use crate::codec::{
    amount_decoding, amount_encoding, decode_amount, encode_amount, lemma_amount_round_trip,
    Record,
};
use crate::idmap::{
    ascending, erase, lemma_map_round_trip, lemma_upsert, lemma_upsert_erased,
    lookup, map_decoding, map_encoding, map_sound, upsert, IdMap,
};
use vstd::prelude::*;

verus! {

/// Why a state transition was refused.
#[derive(Clone, Copy, Debug, PartialEq, Eq)]
pub enum TokenStateError {
    /// The owner holds less than the amount asked for.
    InsufficientBalance { owner: ActorID, balance: u128, delta: u128 },
    /// The operator may spend less than the amount asked for.
    InsufficientAllowance { owner: ActorID, operator: ActorID, allowance: u128, delta: u128 },
    /// The amount is no multiple of the granularity.
    InvalidGranularity { amount: u128, granularity: u64 },
    /// A balance or the supply would leave the range of 128-bit integers.
    Overflow,
    /// The supply is smaller than a balance.
    InvariantFailed,
}

/// The model of an account record: the balance, and what each operator may still spend.
pub ghost struct AccountView {
    pub balance: u128,
    pub allowances: Seq<(ActorID, u128)>,
}

/// The model of a fungible ledger.
pub ghost struct TokenLedger {
    pub supply: u128,
    pub accounts: Seq<(ActorID, AccountView)>,
}

/// The record of an account, where one without a record holds nothing and allows nothing.
pub open spec fn account_of(l: TokenLedger, a: ActorID) -> AccountView {
    match lookup(l.accounts, a) {
        Some(account) => account,
        None => AccountView { balance: 0, allowances: Seq::empty() },
    }
}

/// The balance of an account.
pub open spec fn token_balance(l: TokenLedger, a: ActorID) -> u128 {
    account_of(l, a).balance
}

/// What `operator` may still spend of the tokens of `owner`. No entry means nothing.
pub open spec fn allowance_between(l: TokenLedger, owner: ActorID, operator: ActorID) -> u128 {
    match lookup(account_of(l, owner).allowances, operator) {
        Some(x) => x,
        None => 0,
    }
}

/// Whether the amount is an exact multiple of the granularity.
pub open spec fn granular(amount: u128, granularity: u64) -> bool {
    granularity != 0 && amount % (granularity as u128) == 0
}

/// The ledger with the balance of `a` set to `balance`.
pub open spec fn with_balance(l: TokenLedger, a: ActorID, balance: u128) -> TokenLedger {
    TokenLedger {
        supply: l.supply,
        accounts: upsert(
            l.accounts,
            a,
            AccountView { balance, allowances: account_of(l, a).allowances },
        ),
    }
}

/// The ledger with the allowance of `operator` on the tokens of `owner` set
/// to `x`. An allowance of zero is not stored: its entry is removed.
pub open spec fn with_allowance(l: TokenLedger, owner: ActorID, operator: ActorID, x: u128) -> TokenLedger {
    match lookup(l.accounts, owner) {
        None => if x == 0 {
            l
        } else {
            TokenLedger {
                supply: l.supply,
                accounts: upsert(
                    l.accounts,
                    owner,
                    AccountView {
                        balance: 0,
                        allowances: upsert(Seq::<(ActorID, u128)>::empty(), operator, x),
                    },
                ),
            }
        },
        Some(account) => TokenLedger {
            supply: l.supply,
            accounts: upsert(
                l.accounts,
                owner,
                AccountView {
                    balance: account.balance,
                    allowances: if x == 0 {
                        erase(account.allowances, operator)
                    } else {
                        upsert(account.allowances, operator, x)
                    },
                },
            ),
        },
    }
}

/// The ledger after `amount` was minted to `to`.
pub open spec fn minted_amount(l: TokenLedger, granularity: u64, to: ActorID, amount: u128) -> Result<
    TokenLedger,
    TokenStateError,
> {
    if !granular(amount, granularity) {
        Err(TokenStateError::InvalidGranularity { amount, granularity })
    } else if l.supply + amount > u128::MAX || token_balance(l, to) + amount > u128::MAX {
        Err(TokenStateError::Overflow)
    } else {
        Ok(
            with_balance(
                TokenLedger { supply: (l.supply + amount) as u128, accounts: l.accounts },
                to,
                (token_balance(l, to) + amount) as u128,
            ),
        )
    }
}

/// The ledger after `amount` moved from `from` to `to`.
pub open spec fn transferred_amount(
    l: TokenLedger,
    granularity: u64,
    from: ActorID,
    to: ActorID,
    amount: u128,
) -> Result<TokenLedger, TokenStateError> {
    if !granular(amount, granularity) {
        Err(TokenStateError::InvalidGranularity { amount, granularity })
    } else if token_balance(l, from) < amount {
        Err(
            TokenStateError::InsufficientBalance {
                owner: from,
                balance: token_balance(l, from),
                delta: amount,
            },
        )
    } else {
        let l1 = with_balance(l, from, (token_balance(l, from) - amount) as u128);
        if token_balance(l1, to) + amount > u128::MAX {
            Err(TokenStateError::Overflow)
        } else {
            Ok(with_balance(l1, to, (token_balance(l1, to) + amount) as u128))
        }
    }
}

/// The ledger after `amount` was burnt from the balance of `owner`.
pub open spec fn burned_amount(l: TokenLedger, granularity: u64, owner: ActorID, amount: u128) -> Result<
    TokenLedger,
    TokenStateError,
> {
    if !granular(amount, granularity) {
        Err(TokenStateError::InvalidGranularity { amount, granularity })
    } else if token_balance(l, owner) < amount {
        Err(
            TokenStateError::InsufficientBalance {
                owner,
                balance: token_balance(l, owner),
                delta: amount,
            },
        )
    } else if l.supply < amount {
        Err(TokenStateError::InvariantFailed)
    } else {
        Ok(
            with_balance(
                TokenLedger { supply: (l.supply - amount) as u128, accounts: l.accounts },
                owner,
                (token_balance(l, owner) - amount) as u128,
            ),
        )
    }
}

/// The ledger after `operator` spent `amount` of its allowance on the
/// tokens of `owner`. Spending more than the allowance is refused; spending
/// all of it removes the entry.
pub open spec fn allowance_used(l: TokenLedger, owner: ActorID, operator: ActorID, amount: u128) -> Result<
    TokenLedger,
    TokenStateError,
> {
    if allowance_between(l, owner, operator) < amount {
        Err(
            TokenStateError::InsufficientAllowance {
                owner,
                operator,
                allowance: allowance_between(l, owner, operator),
                delta: amount,
            },
        )
    } else {
        Ok(
            with_allowance(
                l,
                owner,
                operator,
                (allowance_between(l, owner, operator) - amount) as u128,
            ),
        )
    }
}

/// The allowance after an increase by `delta`: the sum, or the largest
/// amount there is where the sum would exceed it.
pub open spec fn raised(current: u128, delta: u128) -> u128 {
    if current + delta > u128::MAX {
        u128::MAX
    } else {
        (current + delta) as u128
    }
}

/// The ledger after the allowance was raised by `delta`.
pub open spec fn allowance_increased(l: TokenLedger, owner: ActorID, operator: ActorID, delta: u128) -> TokenLedger {
    with_allowance(l, owner, operator, raised(allowance_between(l, owner, operator), delta))
}

/// The ledger after `operator` moved `amount` from `from` to `to` on its
/// allowance: the granularity is checked, the allowance spent, the amount moved.
pub open spec fn operator_transferred(
    l: TokenLedger,
    granularity: u64,
    operator: ActorID,
    from: ActorID,
    to: ActorID,
    amount: u128,
) -> Result<TokenLedger, TokenStateError> {
    if !granular(amount, granularity) {
        Err(TokenStateError::InvalidGranularity { amount, granularity })
    } else {
        match allowance_used(l, from, operator, amount) {
            Err(e) => Err(e),
            Ok(l1) => transferred_amount(l1, granularity, from, to, amount),
        }
    }
}

/// The ledger after `operator` burnt `amount` of the tokens of `owner` on its allowance.
pub open spec fn operator_burned(
    l: TokenLedger,
    granularity: u64,
    operator: ActorID,
    owner: ActorID,
    amount: u128,
) -> Result<TokenLedger, TokenStateError> {
    if !granular(amount, granularity) {
        Err(TokenStateError::InvalidGranularity { amount, granularity })
    } else {
        match allowance_used(l, owner, operator, amount) {
            Err(e) => Err(e),
            Ok(l1) => burned_amount(l1, granularity, owner, amount),
        }
    }
}

/// Every table of the ledger is in key order. Every transition keeps this.
pub open spec fn token_ledger_ordered(l: TokenLedger) -> bool {
    &&& ascending(l.accounts)
    &&& forall|i: int| 0 <= i < l.accounts.len() ==> ascending((#[trigger] l.accounts[i]).1.allowances)
}

/// The ledgers that valid states have: ordered, and small enough to be laid out.
pub open spec fn token_ledger_sound(l: TokenLedger) -> bool {
    map_sound::<Account>(l.accounts)
}

/// The layout of a ledger: supply, then the account table.
pub open spec fn token_ledger_encoding(l: TokenLedger) -> Seq<u8> {
    amount_encoding(l.supply) + map_encoding::<Account>(l.accounts)
}

/// Reads a ledger from the front of `b`.
pub open spec fn token_ledger_decoding(b: Seq<u8>) -> Option<(TokenLedger, Seq<u8>)> {
    match amount_decoding(b) {
        None => None,
        Some((supply, b1)) => match map_decoding::<Account>(b1) {
            None => None,
            Some((accounts, b2)) => Some((TokenLedger { supply, accounts }, b2)),
        },
    }
}

/// Decoding inverts encoding for every sound ledger.
pub proof fn lemma_token_ledger_round_trip(l: TokenLedger, rest: Seq<u8>)
    requires
        token_ledger_sound(l),
    ensures
        token_ledger_decoding(token_ledger_encoding(l) + rest) == Some((l, rest)),
{
    lemma_amount_round_trip(l.supply, map_encoding::<Account>(l.accounts) + rest);
    lemma_map_round_trip::<Account>(l.accounts, rest);
    assert(token_ledger_encoding(l) + rest =~= amount_encoding(l.supply) + (map_encoding::<Account>(
        l.accounts,
    ) + rest));
}

/// An account record.
pub struct Account {
    pub balance: u128,
    pub allowances: IdMap<u128>,
}

impl View for Account {
    type V = AccountView;

    open spec fn view(&self) -> AccountView {
        AccountView { balance: self.balance, allowances: self.allowances@ }
    }
}

impl Record for Account {
    open spec fn sound(v: AccountView) -> bool {
        map_sound::<u128>(v.allowances)
    }

    open spec fn encoding(v: AccountView) -> Seq<u8> {
        amount_encoding(v.balance) + map_encoding::<u128>(v.allowances)
    }

    open spec fn decoding(b: Seq<u8>) -> Option<(AccountView, Seq<u8>)> {
        match amount_decoding(b) {
            None => None,
            Some((balance, b1)) => match map_decoding::<u128>(b1) {
                None => None,
                Some((allowances, b2)) => Some((AccountView { balance, allowances }, b2)),
            },
        }
    }

    proof fn lemma_round_trip(v: AccountView, rest: Seq<u8>) {
        lemma_amount_round_trip(v.balance, map_encoding::<u128>(v.allowances) + rest);
        lemma_map_round_trip::<u128>(v.allowances, rest);
        assert(Self::encoding(v) + rest =~= amount_encoding(v.balance) + (map_encoding::<u128>(
            v.allowances,
        ) + rest));
    }

    open spec fn valid(&self) -> bool {
        self.allowances.valid()
    }

    proof fn lemma_valid_sound(&self) {
        self.allowances.lemma_valid_sound();
    }

    fn duplicate(&self) -> (r: Self) {
        Account { balance: self.balance, allowances: self.allowances.duplicate() }
    }

    fn encode(&self, out: &mut Vec<u8>) {
        encode_amount(self.balance, out);
        self.allowances.encode(out);
    }

    fn decode(bytes: &[u8], start: usize) -> (r: Option<(Self, usize)>) {
        let (balance, end1) = match decode_amount(bytes, start) {
            Some(pair) => pair,
            None => {
                return None;
            },
        };
        let (allowances, end2) = match IdMap::<u128>::decode(bytes, end1) {
            Some(pair) => pair,
            None => {
                return None;
            },
        };
        Some((Account { balance, allowances }, end2))
    }
}

/// The aggregate root of a fungible token: the supply and the account table.
pub struct TokenState {
    supply: u128,
    accounts: IdMap<Account>,
}

impl View for TokenState {
    type V = TokenLedger;

    closed spec fn view(&self) -> TokenLedger {
        TokenLedger { supply: self.supply, accounts: self.accounts@ }
    }
}

impl TokenState {
    /// The representation invariant: the account table is a valid map of valid records.
    pub closed spec fn valid(&self) -> bool {
        self.accounts.valid()
    }

    /// The ledger of a valid state is sound and ordered.
    pub proof fn lemma_valid_sound(&self)
        requires
            self.valid(),
        ensures
            token_ledger_sound(self@),
            token_ledger_ordered(self@),
    {
        self.accounts.lemma_valid_sound();
    }

    /// The state of a new token: no supply, no accounts.
    pub fn new() -> (r: Self)
        ensures
            r.valid(),
            r@ == (TokenLedger { supply: 0, accounts: Seq::empty() }),
    {
        TokenState { supply: 0, accounts: IdMap::new() }
    }

    /// An independent copy of the state.
    pub fn duplicate(&self) -> (r: Self)
        requires
            self.valid(),
        ensures
            r.valid(),
            r@ == self@,
    {
        TokenState { supply: self.supply, accounts: self.accounts.duplicate() }
    }

    /// The number of tokens in circulation.
    pub fn total_supply(&self) -> (r: u128)
        ensures
            r == self@.supply,
    {
        self.supply
    }

    /// The balance of an account; zero for an account without a record.
    pub fn get_balance(&self, owner: ActorID) -> (r: u128)
        requires
            self.valid(),
        ensures
            r == token_balance(self@, owner),
    {
        match self.accounts.get(owner) {
            Some(account) => account.balance,
            None => 0,
        }
    }

    /// What `operator` may still spend of the tokens of `owner`; zero where no allowance is set.
    pub fn get_allowance_between(&self, owner: ActorID, operator: ActorID) -> (r: u128)
        requires
            self.valid(),
        ensures
            r == allowance_between(self@, owner, operator),
    {
        match self.accounts.get(owner) {
            Some(account) => match account.allowances.get(operator) {
                Some(x) => *x,
                None => 0,
            },
            None => 0,
        }
    }

    fn take_account(&mut self, a: ActorID) -> (r: Account)
        requires
            old(self).valid(),
        ensures
            final(self).valid(),
            r.valid(),
            r@ == account_of(old(self)@, a),
            final(self).accounts@ == erase(old(self).accounts@, a),
            final(self).supply == old(self).supply,
    {
        match self.accounts.delete(a) {
            Some(account) => account,
            None => {
                let allowances: IdMap<u128> = IdMap::new();
                Account { balance: 0, allowances }
            },
        }
    }

    /// Sets the balance of an account.
    pub fn set_balance(&mut self, a: ActorID, balance: u128)
        requires
            old(self).valid(),
        ensures
            final(self).valid(),
            final(self)@ == with_balance(old(self)@, a, balance),
    {
        proof {
            old(self).accounts.lemma_valid_sound();
            lemma_upsert_erased(
                old(self).accounts@,
                a,
                AccountView { balance, allowances: account_of(old(self)@, a).allowances },
            );
        }
        let mut account = self.take_account(a);
        account.balance = balance;
        self.accounts.put(a, account);
    }

    /// Sets what `operator` may spend of the tokens of `owner`. An allowance of zero is removed.
    pub fn set_allowance(&mut self, owner: ActorID, operator: ActorID, x: u128)
        requires
            old(self).valid(),
        ensures
            final(self).valid(),
            final(self)@ == with_allowance(old(self)@, owner, operator, x),
    {
        if x == 0 && !self.accounts.contains(owner) {
            return ;
        }
        let ghost before = account_of(old(self)@, owner);
        proof {
            old(self).accounts.lemma_valid_sound();
            lemma_upsert_erased(
                old(self).accounts@,
                owner,
                AccountView {
                    balance: before.balance,
                    allowances: if x == 0 {
                        erase(before.allowances, operator)
                    } else {
                        upsert(before.allowances, operator, x)
                    },
                },
            );
        }
        let mut account = self.take_account(owner);
        if x == 0 {
            account.allowances.delete(operator);
        } else {
            account.allowances.put(operator, x);
        }
        self.accounts.put(owner, account);
    }

    /// Mints `amount` to `to`. On an error nothing changes.
    pub fn mint(&mut self, granularity: u64, to: ActorID, amount: u128) -> (r: Result<
        (),
        TokenStateError,
    >)
        requires
            old(self).valid(),
        ensures
            final(self).valid(),
            match minted_amount(old(self)@, granularity, to, amount) {
                Ok(l) => r is Ok && final(self)@ == l,
                Err(e) => r == Err::<(), TokenStateError>(e) && final(self)@ == old(self)@,
            },
    {
        if granularity == 0 || amount % (granularity as u128) != 0 {
            return Err(TokenStateError::InvalidGranularity { amount, granularity });
        }
        let balance = self.get_balance(to);
        if amount > u128::MAX - self.supply || amount > u128::MAX - balance {
            return Err(TokenStateError::Overflow);
        }
        self.supply = self.supply + amount;
        self.set_balance(to, balance + amount);
        Ok(())
    }

    /// Moves `amount` from `from` to `to`. On an error nothing changes.
    pub fn transfer(&mut self, granularity: u64, from: ActorID, to: ActorID, amount: u128) -> (r:
        Result<(), TokenStateError>)
        requires
            old(self).valid(),
        ensures
            final(self).valid(),
            match transferred_amount(old(self)@, granularity, from, to, amount) {
                Ok(l) => r is Ok && final(self)@ == l,
                Err(e) => r == Err::<(), TokenStateError>(e) && final(self)@ == old(self)@,
            },
    {
        if granularity == 0 || amount % (granularity as u128) != 0 {
            return Err(TokenStateError::InvalidGranularity { amount, granularity });
        }
        let balance = self.get_balance(from);
        if balance < amount {
            return Err(TokenStateError::InsufficientBalance { owner: from, balance, delta: amount });
        }
        let receiving = if to == from {
            balance - amount
        } else {
            self.get_balance(to)
        };
        proof {
            old(self).accounts.lemma_valid_sound();
            lemma_upsert(
                old(self).accounts@,
                from,
                AccountView {
                    balance: (balance - amount) as u128,
                    allowances: account_of(old(self)@, from).allowances,
                },
            );
        }
        if amount > u128::MAX - receiving {
            return Err(TokenStateError::Overflow);
        }
        self.set_balance(from, balance - amount);
        self.set_balance(to, receiving + amount);
        Ok(())
    }

    /// Burns `amount` from the balance of `owner`. On an error nothing changes.
    pub fn burn(&mut self, granularity: u64, owner: ActorID, amount: u128) -> (r: Result<
        (),
        TokenStateError,
    >)
        requires
            old(self).valid(),
        ensures
            final(self).valid(),
            match burned_amount(old(self)@, granularity, owner, amount) {
                Ok(l) => r is Ok && final(self)@ == l,
                Err(e) => r == Err::<(), TokenStateError>(e) && final(self)@ == old(self)@,
            },
    {
        if granularity == 0 || amount % (granularity as u128) != 0 {
            return Err(TokenStateError::InvalidGranularity { amount, granularity });
        }
        let balance = self.get_balance(owner);
        if balance < amount {
            return Err(TokenStateError::InsufficientBalance { owner, balance, delta: amount });
        }
        if self.supply < amount {
            return Err(TokenStateError::InvariantFailed);
        }
        self.supply = self.supply - amount;
        self.set_balance(owner, balance - amount);
        Ok(())
    }

    /// Spends `amount` of the allowance of `operator` on the tokens of
    /// `owner`. On an error nothing changes.
    pub fn attempt_use_allowance(&mut self, owner: ActorID, operator: ActorID, amount: u128) -> (r:
        Result<(), TokenStateError>)
        requires
            old(self).valid(),
        ensures
            final(self).valid(),
            match allowance_used(old(self)@, owner, operator, amount) {
                Ok(l) => r is Ok && final(self)@ == l,
                Err(e) => r == Err::<(), TokenStateError>(e) && final(self)@ == old(self)@,
            },
    {
        let allowance = self.get_allowance_between(owner, operator);
        if allowance < amount {
            return Err(
                TokenStateError::InsufficientAllowance { owner, operator, allowance, delta: amount },
            );
        }
        self.set_allowance(owner, operator, allowance - amount);
        Ok(())
    }

    /// Raises the allowance by `delta` and returns the new allowance. The
    /// allowance never wraps: it stays at the largest amount there is.
    pub fn increase_allowance(&mut self, owner: ActorID, operator: ActorID, delta: u128) -> (r: u128)
        requires
            old(self).valid(),
        ensures
            final(self).valid(),
            final(self)@ == allowance_increased(old(self)@, owner, operator, delta),
            r == raised(allowance_between(old(self)@, owner, operator), delta),
    {
        let allowance = self.get_allowance_between(owner, operator);
        let raised_to = if delta > u128::MAX - allowance {
            u128::MAX
        } else {
            allowance + delta
        };
        self.set_allowance(owner, operator, raised_to);
        raised_to
    }

    /// Lowers the allowance by `delta` and returns the new allowance.
    /// Lowering below zero is refused with `InsufficientAllowance`; lowering
    /// to exactly zero removes the entry.
    pub fn decrease_allowance(&mut self, owner: ActorID, operator: ActorID, delta: u128) -> (r:
        Result<u128, TokenStateError>)
        requires
            old(self).valid(),
        ensures
            final(self).valid(),
            match allowance_used(old(self)@, owner, operator, delta) {
                Ok(l) => r == Ok::<u128, TokenStateError>(
                    (allowance_between(old(self)@, owner, operator) - delta) as u128,
                ) && final(self)@ == l,
                Err(e) => r == Err::<u128, TokenStateError>(e) && final(self)@ == old(self)@,
            },
    {
        let allowance = self.get_allowance_between(owner, operator);
        match self.attempt_use_allowance(owner, operator, delta) {
            Ok(_) => Ok(allowance - delta),
            Err(e) => Err(e),
        }
    }

    /// Removes the allowance of `operator` on the tokens of `owner`, if there is one.
    pub fn revoke_allowance(&mut self, owner: ActorID, operator: ActorID)
        requires
            old(self).valid(),
        ensures
            final(self).valid(),
            final(self)@ == with_allowance(old(self)@, owner, operator, 0),
    {
        self.set_allowance(owner, operator, 0);
    }

    /// Moves `amount` from `from` to `to` on the allowance of `operator`. On
    /// an error nothing changes, the allowance included.
    pub fn operator_transfer(
        &mut self,
        granularity: u64,
        operator: ActorID,
        from: ActorID,
        to: ActorID,
        amount: u128,
    ) -> (r: Result<(), TokenStateError>)
        requires
            old(self).valid(),
        ensures
            final(self).valid(),
            match operator_transferred(old(self)@, granularity, operator, from, to, amount) {
                Ok(l) => r is Ok && final(self)@ == l,
                Err(e) => r == Err::<(), TokenStateError>(e) && final(self)@ == old(self)@,
            },
    {
        if granularity == 0 || amount % (granularity as u128) != 0 {
            return Err(TokenStateError::InvalidGranularity { amount, granularity });
        }
        let mut next = self.duplicate();
        match next.attempt_use_allowance(from, operator, amount) {
            Err(e) => {
                return Err(e);
            },
            Ok(_) => {},
        }
        match next.transfer(granularity, from, to, amount) {
            Err(e) => {
                return Err(e);
            },
            Ok(_) => {},
        }
        *self = next;
        Ok(())
    }

    /// Burns `amount` of the tokens of `owner` on the allowance of
    /// `operator`. On an error nothing changes, the allowance included.
    pub fn operator_burn(&mut self, granularity: u64, operator: ActorID, owner: ActorID, amount: u128) -> (r:
        Result<(), TokenStateError>)
        requires
            old(self).valid(),
        ensures
            final(self).valid(),
            match operator_burned(old(self)@, granularity, operator, owner, amount) {
                Ok(l) => r is Ok && final(self)@ == l,
                Err(e) => r == Err::<(), TokenStateError>(e) && final(self)@ == old(self)@,
            },
    {
        if granularity == 0 || amount % (granularity as u128) != 0 {
            return Err(TokenStateError::InvalidGranularity { amount, granularity });
        }
        let mut next = self.duplicate();
        match next.attempt_use_allowance(owner, operator, amount) {
            Err(e) => {
                return Err(e);
            },
            Ok(_) => {},
        }
        match next.burn(granularity, owner, amount) {
            Err(e) => {
                return Err(e);
            },
            Ok(_) => {},
        }
        *self = next;
        Ok(())
    }

    /// Appends the layout of the state to `out`.
    pub fn encode(&self, out: &mut Vec<u8>)
        requires
            self.valid(),
        ensures
            final(out)@ == old(out)@ + token_ledger_encoding(self@),
    {
        encode_amount(self.supply, out);
        self.accounts.encode(out);
        assert(out@ =~= old(out)@ + token_ledger_encoding(self@));
    }

    /// Reads a state at offset `start`.
    pub fn decode(bytes: &[u8], start: usize) -> (r: Option<(Self, usize)>)
        requires
            start <= bytes@.len(),
        ensures
            match r {
                Some((s, end)) => s.valid() && start <= end <= bytes@.len() && token_ledger_decoding(
                    bytes@.skip(start as int),
                ) == Some((s@, bytes@.skip(end as int))),
                None => token_ledger_decoding(bytes@.skip(start as int)) is None,
            },
    {
        let (supply, end1) = match decode_amount(bytes, start) {
            Some(pair) => pair,
            None => {
                return None;
            },
        };
        let (accounts, end2) = match IdMap::<Account>::decode(bytes, end1) {
            Some(pair) => pair,
            None => {
                return None;
            },
        };
        Some((TokenState { supply, accounts }, end2))
    }
}

} // verus!
