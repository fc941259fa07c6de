//! The bookkeeping of a fungible ledger agrees with its accounts: the
//! supply is the sum of all balances. The empty ledger is consistent in this
//! sense, every transition keeps a ledger consistent, and on a consistent
//! ledger no transition fails for a reason of bookkeeping.

use crate::address::ActorID;
use crate::idmap::{binds, erase, lemma_lookup_index, lemma_slot, lookup, slot, upsert};
use crate::token_state::{
    account_of, allowance_used, burned_amount, granular, minted_amount, operator_burned,
    operator_transferred, token_balance, token_ledger_ordered, transferred_amount,
    with_allowance, with_balance, AccountView, TokenLedger, TokenStateError,
};
use crate::token_theorems::{lemma_with_allowance, lemma_with_balance};
use vstd::prelude::*;

verus! {

/// The sum of the balances of `accounts`.
pub open spec fn total(accounts: Seq<(ActorID, AccountView)>) -> nat
    decreases accounts.len(),
{
    if accounts.len() == 0 {
        0
    } else {
        total(accounts.drop_last()) + accounts.last().1.balance as nat
    }
}

/// The supply is the sum of all balances.
pub open spec fn supply_consistent(l: TokenLedger) -> bool {
    l.supply == total(l.accounts)
}

proof fn lemma_total_update(s: Seq<(ActorID, AccountView)>, i: int, e: (ActorID, AccountView))
    requires
        0 <= i < s.len(),
    ensures
        total(s.update(i, e)) + s[i].1.balance == total(s) + e.1.balance,
    decreases s.len(),
{
    let u = s.update(i, e);
    if i == s.len() - 1 {
        assert(u.drop_last() =~= s.drop_last());
    } else {
        assert(u.drop_last() =~= s.drop_last().update(i, e));
        assert(s.drop_last()[i] == s[i]);
        lemma_total_update(s.drop_last(), i, e);
    }
}

proof fn lemma_total_insert(s: Seq<(ActorID, AccountView)>, i: int, e: (ActorID, AccountView))
    requires
        0 <= i <= s.len(),
    ensures
        total(s.insert(i, e)) == total(s) + e.1.balance,
    decreases s.len(),
{
    let u = s.insert(i, e);
    if i == s.len() {
        assert(u.drop_last() =~= s);
    } else {
        assert(u.drop_last() =~= s.drop_last().insert(i, e));
        assert(u.last() == s.last());
        lemma_total_insert(s.drop_last(), i, e);
    }
}

proof fn lemma_total_bounds(s: Seq<(ActorID, AccountView)>, i: int, j: int)
    requires
        0 <= i < s.len(),
        0 <= j < s.len(),
    ensures
        s[i].1.balance <= total(s),
        i != j ==> s[i].1.balance + s[j].1.balance <= total(s),
    decreases s.len(),
{
    let t = s.drop_last();
    let n = s.len() - 1;
    if i < n && j < n {
        assert(t[i] == s[i] && t[j] == s[j]);
        lemma_total_bounds(t, i, j);
    } else if i < n {
        assert(t[i] == s[i]);
        lemma_total_bounds(t, i, i);
    } else if j < n {
        assert(t[j] == s[j]);
        lemma_total_bounds(t, j, j);
    }
}

/// Binding an account changes the sum by the difference of the balances.
proof fn lemma_total_upsert(s: Seq<(ActorID, AccountView)>, k: ActorID, v: AccountView)
    ensures
        total(upsert(s, k, v)) + (match lookup(s, k) {
            Some(a) => a.balance as nat,
            None => 0nat,
        }) == total(s) + v.balance,
{
    lemma_slot(s, k);
    if binds(s, k) {
        lemma_total_update(s, slot(s, k), (k, v));
    } else {
        lemma_total_insert(s, slot(s, k), (k, v));
    }
}

/// On a consistent ledger no balance exceeds the supply, and no two
/// balances together do.
pub proof fn lemma_balances_within_supply(l: TokenLedger, a: ActorID, b: ActorID)
    requires
        supply_consistent(l),
    ensures
        token_balance(l, a) <= l.supply,
        a != b ==> token_balance(l, a) + token_balance(l, b) <= l.supply,
{
    if lookup(l.accounts, a) is Some {
        lemma_lookup_index(l.accounts, a);
        let i = slot(l.accounts, a);
        lemma_total_bounds(l.accounts, i, i);
        if lookup(l.accounts, b) is Some {
            lemma_lookup_index(l.accounts, b);
            lemma_total_bounds(l.accounts, i, slot(l.accounts, b));
        }
    } else if lookup(l.accounts, b) is Some {
        lemma_lookup_index(l.accounts, b);
        let j = slot(l.accounts, b);
        lemma_total_bounds(l.accounts, j, j);
    }
}

/// Setting a balance changes the sum by the difference of the balances.
pub proof fn lemma_with_balance_total(l: TokenLedger, a: ActorID, balance: u128)
    ensures
        total(with_balance(l, a, balance).accounts) + token_balance(l, a) == total(l.accounts)
            + balance,
{
    lemma_total_upsert(
        l.accounts,
        a,
        AccountView { balance, allowances: account_of(l, a).allowances },
    );
}

/// Setting an allowance leaves the sum of the balances as it was.
pub proof fn lemma_with_allowance_total(l: TokenLedger, owner: ActorID, operator: ActorID, x: u128)
    ensures
        total(with_allowance(l, owner, operator, x).accounts) == total(l.accounts),
        with_allowance(l, owner, operator, x).supply == l.supply,
{
    match lookup(l.accounts, owner) {
        None => {
            if x != 0 {
                lemma_total_upsert(
                    l.accounts,
                    owner,
                    AccountView {
                        balance: 0,
                        allowances: upsert(Seq::<(ActorID, u128)>::empty(), operator, x),
                    },
                );
            }
        },
        Some(account) => {
            lemma_total_upsert(
                l.accounts,
                owner,
                AccountView {
                    balance: account.balance,
                    allowances: if x == 0 {
                        erase(account.allowances, operator)
                    } else {
                        upsert(account.allowances, operator, x)
                    },
                },
            );
        },
    }
}

/// The ledger of a new token is consistent.
pub proof fn lemma_new_consistent()
    ensures
        supply_consistent(TokenLedger { supply: 0, accounts: Seq::empty() }),
{
}

/// On a consistent ledger a mint of a granular amount goes through
/// unless the supply would leave the range of amounts, and leaves the
/// ledger consistent.
pub proof fn lemma_minted_consistent(l: TokenLedger, granularity: u64, to: ActorID, amount: u128)
    requires
        supply_consistent(l),
        granular(amount, granularity),
        l.supply + amount <= u128::MAX,
    ensures
        minted_amount(l, granularity, to, amount) is Ok,
        supply_consistent(minted_amount(l, granularity, to, amount).unwrap()),
{
    lemma_balances_within_supply(l, to, to);
    let l1 = TokenLedger { supply: (l.supply + amount) as u128, accounts: l.accounts };
    assert(token_balance(l1, to) == token_balance(l, to));
    lemma_with_balance_total(l1, to, (token_balance(l, to) + amount) as u128);
}

/// On a consistent ledger a transfer of a granular amount that the
/// giving account holds goes through, and leaves the supply as it was and
/// the ledger consistent.
pub proof fn lemma_transferred_consistent(
    l: TokenLedger,
    granularity: u64,
    from: ActorID,
    to: ActorID,
    amount: u128,
)
    requires
        token_ledger_ordered(l),
        supply_consistent(l),
        granular(amount, granularity),
        token_balance(l, from) >= amount,
    ensures
        transferred_amount(l, granularity, from, to, amount) is Ok,
        supply_consistent(transferred_amount(l, granularity, from, to, amount).unwrap()),
        transferred_amount(l, granularity, from, to, amount).unwrap().supply == l.supply,
{
    lemma_balances_within_supply(l, from, to);
    let b1 = (token_balance(l, from) - amount) as u128;
    let l1 = with_balance(l, from, b1);
    lemma_with_balance(l, from, b1);
    lemma_with_balance_total(l, from, b1);
    assert(total(l1.accounts) == l.supply - amount);
    lemma_with_balance_total(l1, to, (token_balance(l1, to) + amount) as u128);
}

/// On a consistent ledger a burn of a granular amount that the account
/// holds goes through, and leaves the ledger consistent.
pub proof fn lemma_burned_consistent(l: TokenLedger, granularity: u64, owner: ActorID, amount: u128)
    requires
        supply_consistent(l),
        granular(amount, granularity),
        token_balance(l, owner) >= amount,
    ensures
        burned_amount(l, granularity, owner, amount) is Ok,
        supply_consistent(burned_amount(l, granularity, owner, amount).unwrap()),
{
    lemma_balances_within_supply(l, owner, owner);
    let l1 = TokenLedger { supply: (l.supply - amount) as u128, accounts: l.accounts };
    assert(token_balance(l1, owner) == token_balance(l, owner));
    lemma_with_balance_total(l1, owner, (token_balance(l, owner) - amount) as u128);
}

/// On a consistent ledger no transition fails for a reason of
/// bookkeeping: a transfer, a burn, and either on an allowance, is refused
/// only for the granularity, the balance or the allowance; and every
/// transition that goes through leaves the ledger consistent.
pub proof fn lemma_transitions_consistent(
    l: TokenLedger,
    granularity: u64,
    operator: ActorID,
    from: ActorID,
    to: ActorID,
    amount: u128,
)
    requires
        token_ledger_ordered(l),
        supply_consistent(l),
    ensures
        refused_for_cause(transferred_amount(l, granularity, from, to, amount)),
        refused_for_cause(burned_amount(l, granularity, from, amount)),
        refused_for_cause(operator_transferred(l, granularity, operator, from, to, amount)),
        refused_for_cause(operator_burned(l, granularity, operator, from, amount)),
        refused_for_cause(allowance_used(l, from, operator, amount)),
{
    if granular(amount, granularity) {
        if token_balance(l, from) >= amount {
            lemma_transferred_consistent(l, granularity, from, to, amount);
            lemma_burned_consistent(l, granularity, from, amount);
        }
        if allowance_used(l, from, operator, amount) is Ok {
            let l1 = allowance_used(l, from, operator, amount).unwrap();
            let x = (crate::token_state::allowance_between(l, from, operator) - amount) as u128;
            lemma_with_allowance(l, from, operator, x);
            lemma_with_allowance_total(l, from, operator, x);
            if token_balance(l1, from) >= amount {
                lemma_transferred_consistent(l1, granularity, from, to, amount);
                lemma_burned_consistent(l1, granularity, from, amount);
            }
        }
    }
    if allowance_used(l, from, operator, amount) is Ok {
        let x = (crate::token_state::allowance_between(l, from, operator) - amount) as u128;
        lemma_with_allowance_total(l, from, operator, x);
    }
}

/// The transition went through and left a consistent ledger, or was
/// refused for the granularity, the balance or the allowance.
pub open spec fn refused_for_cause(r: Result<TokenLedger, TokenStateError>) -> bool {
    match r {
        Ok(l) => supply_consistent(l),
        Err(e) => e is InvalidGranularity || e is InsufficientBalance || e is InsufficientAllowance,
    }
}

} // verus!
