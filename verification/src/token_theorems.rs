//! What holds of every fungible ledger, proved from the definitions of its
//! transitions.

use crate::address::ActorID;
use crate::idmap::{
    ascending, lemma_erase, lemma_erase_absent, lemma_lookup_index, lemma_upsert,
    lemma_upsert_same, lookup,
};
use crate::token_state::{
    account_of, allowance_between, allowance_increased, allowance_used, minted_amount, raised,
    token_balance, token_ledger_ordered, transferred_amount, with_allowance, with_balance,
    AccountView, TokenLedger, TokenStateError,
};
use vstd::prelude::*;

verus! {

/// The allowances of every account of an ordered ledger are in key order.
pub proof fn lemma_allowances_ascending(l: TokenLedger, owner: ActorID)
    requires
        token_ledger_ordered(l),
    ensures
        ascending(account_of(l, owner).allowances),
{
    if lookup(l.accounts, owner) is Some {
        lemma_lookup_index(l.accounts, owner);
    }
}

/// Setting a balance changes that balance and nothing else that can be asked for.
pub proof fn lemma_with_balance(l: TokenLedger, a: ActorID, balance: u128)
    requires
        token_ledger_ordered(l),
    ensures
        token_ledger_ordered(with_balance(l, a, balance)),
        with_balance(l, a, balance).supply == l.supply,
        token_balance(with_balance(l, a, balance), a) == balance,
        forall|b: ActorID| b != a ==> #[trigger] token_balance(with_balance(l, a, balance), b) == token_balance(l, b),
        forall|b: ActorID| #[trigger] account_of(with_balance(l, a, balance), b).allowances == account_of(l, b).allowances,
{
    let v = AccountView { balance, allowances: account_of(l, a).allowances };
    lemma_allowances_ascending(l, a);
    lemma_upsert(l.accounts, a, v);
    let l2 = with_balance(l, a, balance);
    assert forall|i: int| 0 <= i < l2.accounts.len() implies ascending(
        (#[trigger] l2.accounts[i]).1.allowances,
    ) by {
        crate::idmap::lemma_lookup_at(l2.accounts, i);
        let k = l2.accounts[i].0;
        if k != a {
            assert(lookup(l.accounts, k) == Some(l2.accounts[i].1));
            lemma_lookup_index(l.accounts, k);
        }
    }
    assert forall|b: ActorID| #[trigger] account_of(l2, b).allowances == account_of(l, b).allowances by {
        if b != a {
            assert(lookup(l2.accounts, b) == lookup(l.accounts, b));
        }
    }
    assert forall|b: ActorID| b != a implies #[trigger] token_balance(l2, b) == token_balance(l, b) by {
        assert(lookup(l2.accounts, b) == lookup(l.accounts, b));
    }
}

/// Setting an allowance changes that allowance and nothing else that can
/// be asked for. An allowance set to zero has no entry afterwards.
pub proof fn lemma_with_allowance(l: TokenLedger, owner: ActorID, operator: ActorID, x: u128)
    requires
        token_ledger_ordered(l),
    ensures
        token_ledger_ordered(with_allowance(l, owner, operator, x)),
        with_allowance(l, owner, operator, x).supply == l.supply,
        allowance_between(with_allowance(l, owner, operator, x), owner, operator) == x,
        x == 0 ==> lookup(
            account_of(with_allowance(l, owner, operator, x), owner).allowances,
            operator,
        ) is None,
        forall|a: ActorID, b: ActorID|
            (a != owner || b != operator) ==> #[trigger] allowance_between(
                with_allowance(l, owner, operator, x),
                a,
                b,
            ) == allowance_between(l, a, b),
        forall|a: ActorID| #[trigger] token_balance(with_allowance(l, owner, operator, x), a) == token_balance(l, a),
{
    let l2 = with_allowance(l, owner, operator, x);
    let before = account_of(l, owner);
    lemma_allowances_ascending(l, owner);
    if lookup(l.accounts, owner) is None && x == 0 {
    } else {
        let allowances = if lookup(l.accounts, owner) is None {
            crate::idmap::upsert(Seq::<(ActorID, u128)>::empty(), operator, x)
        } else if x == 0 {
            crate::idmap::erase(before.allowances, operator)
        } else {
            crate::idmap::upsert(before.allowances, operator, x)
        };
        lemma_upsert(Seq::<(ActorID, u128)>::empty(), operator, x);
        lemma_erase(before.allowances, operator);
        lemma_upsert(before.allowances, operator, x);
        let v = AccountView { balance: before.balance, allowances };
        lemma_upsert(l.accounts, owner, v);
        assert(l2.accounts == crate::idmap::upsert(l.accounts, owner, v));
        assert forall|i: int| 0 <= i < l2.accounts.len() implies ascending(
            (#[trigger] l2.accounts[i]).1.allowances,
        ) by {
            crate::idmap::lemma_lookup_at(l2.accounts, i);
            let k = l2.accounts[i].0;
            if k != owner {
                assert(lookup(l.accounts, k) == Some(l2.accounts[i].1));
                lemma_lookup_index(l.accounts, k);
            }
        }
        assert forall|a: ActorID, b: ActorID| (a != owner || b != operator) implies #[trigger] allowance_between(l2, a, b)
            == allowance_between(l, a, b) by {
            if a != owner {
                assert(lookup(l2.accounts, a) == lookup(l.accounts, a));
            }
        }
        assert forall|a: ActorID| #[trigger] token_balance(l2, a) == token_balance(l, a) by {
            if a != owner {
                assert(lookup(l2.accounts, a) == lookup(l.accounts, a));
            }
        }
    }
}

/// Lowering an allowance by exactly what it is removes its entry: asking
/// for the allowance afterwards gives zero, as for one that was never set.
pub proof fn lemma_decrease_to_zero_removes_allowance(l: TokenLedger, owner: ActorID, operator: ActorID)
    requires
        token_ledger_ordered(l),
    ensures
        allowance_used(l, owner, operator, allowance_between(l, owner, operator)) is Ok,
        lookup(
            account_of(
                allowance_used(l, owner, operator, allowance_between(l, owner, operator)).unwrap(),
                owner,
            ).allowances,
            operator,
        ) is None,
        allowance_between(
            allowance_used(l, owner, operator, allowance_between(l, owner, operator)).unwrap(),
            owner,
            operator,
        ) == 0,
{
    lemma_with_allowance(l, owner, operator, 0);
}

/// Lowering an allowance by more than it is fails with
/// `InsufficientAllowance`, which names the allowance and the amount.
pub proof fn lemma_decrease_below_zero_refused(
    l: TokenLedger,
    owner: ActorID,
    operator: ActorID,
    delta: u128,
)
    requires
        delta > allowance_between(l, owner, operator),
    ensures
        allowance_used(l, owner, operator, delta) == Err::<TokenLedger, TokenStateError>(
            TokenStateError::InsufficientAllowance {
                owner,
                operator,
                allowance: allowance_between(l, owner, operator),
                delta,
            },
        ),
{
}

/// Revoking an allowance that was never set changes nothing.
pub proof fn lemma_revoke_unset_allowance_changes_nothing(
    l: TokenLedger,
    owner: ActorID,
    operator: ActorID,
)
    requires
        lookup(account_of(l, owner).allowances, operator) is None,
    ensures
        with_allowance(l, owner, operator, 0) == l,
{
    match lookup(l.accounts, owner) {
        None => {},
        Some(account) => {
            lemma_erase_absent(account.allowances, operator);
            lemma_upsert_same(l.accounts, owner, account);
        },
    }
}

/// Raising and then lowering an allowance by the same amount gives back
/// the allowance, unless the raise ran into the largest amount there is.
pub proof fn lemma_increase_then_decrease(l: TokenLedger, owner: ActorID, operator: ActorID, delta: u128)
    requires
        token_ledger_ordered(l),
        allowance_between(l, owner, operator) + delta <= u128::MAX,
    ensures
        allowance_used(allowance_increased(l, owner, operator, delta), owner, operator, delta) is Ok,
        allowance_between(
            allowance_used(
                allowance_increased(l, owner, operator, delta),
                owner,
                operator,
                delta,
            ).unwrap(),
            owner,
            operator,
        ) == allowance_between(l, owner, operator),
{
    let current = allowance_between(l, owner, operator);
    lemma_with_allowance(l, owner, operator, raised(current, delta));
    let l1 = allowance_increased(l, owner, operator, delta);
    lemma_with_allowance(l1, owner, operator, current);
}

/// A successful transfer between two accounts takes the amount from the
/// one and gives it to the other; the supply and every third balance stay.
pub proof fn lemma_transferred_amount(
    l: TokenLedger,
    granularity: u64,
    from: ActorID,
    to: ActorID,
    amount: u128,
)
    requires
        token_ledger_ordered(l),
        transferred_amount(l, granularity, from, to, amount) is Ok,
    ensures
        token_ledger_ordered(transferred_amount(l, granularity, from, to, amount).unwrap()),
        transferred_amount(l, granularity, from, to, amount).unwrap().supply == l.supply,
        from != to ==> token_balance(
            transferred_amount(l, granularity, from, to, amount).unwrap(),
            from,
        ) == token_balance(l, from) - amount,
        from != to ==> token_balance(transferred_amount(l, granularity, from, to, amount).unwrap(), to)
            == token_balance(l, to) + amount,
        from == to ==> token_balance(transferred_amount(l, granularity, from, to, amount).unwrap(), to)
            == token_balance(l, to),
        forall|a: ActorID|
            a != from && a != to ==> #[trigger] token_balance(
                transferred_amount(l, granularity, from, to, amount).unwrap(),
                a,
            ) == token_balance(l, a),
{
    let l1 = with_balance(l, from, (token_balance(l, from) - amount) as u128);
    lemma_with_balance(l, from, (token_balance(l, from) - amount) as u128);
    lemma_with_balance(l1, to, (token_balance(l1, to) + amount) as u128);
}

/// A successful mint raises the supply and the balance of the receiver
/// by the amount; every other balance stays.
pub proof fn lemma_minted_amount(l: TokenLedger, granularity: u64, to: ActorID, amount: u128)
    requires
        token_ledger_ordered(l),
        minted_amount(l, granularity, to, amount) is Ok,
    ensures
        token_ledger_ordered(minted_amount(l, granularity, to, amount).unwrap()),
        minted_amount(l, granularity, to, amount).unwrap().supply == l.supply + amount,
        token_balance(minted_amount(l, granularity, to, amount).unwrap(), to) == token_balance(l, to)
            + amount,
        forall|a: ActorID|
            a != to ==> #[trigger] token_balance(minted_amount(l, granularity, to, amount).unwrap(), a)
                == token_balance(l, a),
{
    let l1 = TokenLedger { supply: (l.supply + amount) as u128, accounts: l.accounts };
    lemma_with_balance(l1, to, (token_balance(l, to) + amount) as u128);
    assert forall|a: ActorID| token_balance(l1, a) == token_balance(l, a) by {}
}

} // verus!
