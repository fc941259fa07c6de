//! The bookkeeping of a non-fungible ledger agrees with its tokens: every
//! balance is the number of tokens that the account owns, and the supply is
//! the number of live tokens. The empty ledger is consistent in this sense,
//! every transition keeps a ledger consistent, and on a consistent ledger no
//! transition fails for a reason of bookkeeping.

use crate::address::ActorID;
use crate::idmap::{
    ascending, lemma_lookup_at, lemma_lookup_index, lemma_slot_is, lemma_upsert, lookup, slot,
};
use crate::nft_state::{
    applied, approved_for_owner, balance_of, credited, debited, empty_ledger, ledger_ordered,
    minted, minted_one, moved, operators_of, owner_of, permitted, revoked_for_owner, step,
    with_operator, without, Action, Authority, LedgerView, OwnerView, StateError, TokenID,
    TokenView,
};
use crate::nft_theorems::{lemma_duplicate_id_refused, lemma_missing_id_refused, lemma_moved};
use vstd::prelude::*;

verus! {

/// The number of tokens among `tokens` that `a` owns.
pub open spec fn owned(tokens: Seq<(TokenID, TokenView)>, a: ActorID) -> nat
    decreases tokens.len(),
{
    if tokens.len() == 0 {
        0
    } else {
        owned(tokens.drop_last(), a) + if tokens.last().1.owner == a {
            1nat
        } else {
            0nat
        }
    }
}

/// Every balance is the number of tokens that the account owns, and the
/// supply is the number of live tokens.
pub open spec fn consistent(l: LedgerView) -> bool {
    &&& l.total_supply == l.tokens.len()
    &&& forall|a: ActorID| #[trigger] balance_of(l, a) == owned(l.tokens, a)
}

/// The errors that stand for a failure of bookkeeping.
pub open spec fn of_bookkeeping(e: StateError) -> bool {
    e is InvariantFailed || e is Overflow
}

proof fn lemma_owned_bounds(s: Seq<(TokenID, TokenView)>, a: ActorID, i: int)
    requires
        0 <= i < s.len(),
    ensures
        owned(s, a) <= s.len(),
        s[i].1.owner == a ==> owned(s, a) >= 1,
        s[i].1.owner != a ==> owned(s, a) <= s.len() - 1,
    decreases s.len(),
{
    let t = s.drop_last();
    if i < s.len() - 1 {
        assert(t[i] == s[i]);
        lemma_owned_bounds(t, a, i);
    } else if t.len() > 0 {
        lemma_owned_bounds(t, a, 0);
    } else {
        assert(owned(t, a) == 0);
    }
}

proof fn lemma_owned_update(s: Seq<(TokenID, TokenView)>, i: int, e: (TokenID, TokenView), a: ActorID)
    requires
        0 <= i < s.len(),
    ensures
        owned(s.update(i, e), a) + (if s[i].1.owner == a {
            1nat
        } else {
            0nat
        }) == owned(s, a) + (if e.1.owner == a {
            1nat
        } else {
            0nat
        }),
    decreases s.len(),
{
    let u = s.update(i, e);
    if i == s.len() - 1 {
        assert(u.drop_last() =~= s.drop_last());
    } else {
        assert(u.drop_last() =~= s.drop_last().update(i, e));
        assert(s.drop_last()[i] == s[i]);
        lemma_owned_update(s.drop_last(), i, e, a);
    }
}

proof fn lemma_owned_insert(s: Seq<(TokenID, TokenView)>, i: int, e: (TokenID, TokenView), a: ActorID)
    requires
        0 <= i <= s.len(),
    ensures
        owned(s.insert(i, e), a) == owned(s, a) + (if e.1.owner == a {
            1nat
        } else {
            0nat
        }),
    decreases s.len(),
{
    let u = s.insert(i, e);
    if i == s.len() {
        assert(u.drop_last() =~= s);
    } else {
        assert(u.drop_last() =~= s.drop_last().insert(i, e));
        assert(u.last() == s.last());
        lemma_owned_insert(s.drop_last(), i, e, a);
    }
}

proof fn lemma_owned_remove(s: Seq<(TokenID, TokenView)>, i: int, a: ActorID)
    requires
        0 <= i < s.len(),
    ensures
        owned(s.remove(i), a) + (if s[i].1.owner == a {
            1nat
        } else {
            0nat
        }) == owned(s, a),
    decreases s.len(),
{
    let u = s.remove(i);
    if i == s.len() - 1 {
        assert(u =~= s.drop_last());
    } else {
        assert(u.drop_last() =~= s.drop_last().remove(i));
        assert(u.last() == s.last());
        assert(s.drop_last()[i] == s[i]);
        lemma_owned_remove(s.drop_last(), i, a);
    }
}

proof fn lemma_keys_count(s: Seq<(TokenID, TokenView)>, i: int)
    requires
        ascending(s),
        0 <= i < s.len(),
    ensures
        s[i].0 >= i,
    decreases i,
{
    if i > 0 {
        lemma_keys_count(s, i - 1);
        assert(s[i - 1].0 < s[i].0);
    }
}

/// An ordered ledger holds no more tokens than ids were handed out.
pub proof fn lemma_tokens_below_next(l: LedgerView)
    requires
        ledger_ordered(l),
    ensures
        l.tokens.len() <= l.next_token,
{
    if l.tokens.len() > 0 {
        let n = l.tokens.len() - 1;
        lemma_keys_count(l.tokens, n);
        lemma_lookup_at(l.tokens, n);
    }
}

/// The empty ledger is consistent.
pub proof fn lemma_empty_consistent()
    ensures
        consistent(empty_ledger()),
        ledger_ordered(empty_ledger()),
{
}

proof fn lemma_step_consistent_transfer(l: LedgerView, t: TokenID, to: ActorID)
    requires
        ledger_ordered(l),
        consistent(l),
        lookup(l.tokens, t) is Some,
    ensures
        crate::nft_state::moved(l, t, to) is Ok,
        consistent(crate::nft_state::moved(l, t, to).unwrap()),
{
    let tok = lookup(l.tokens, t).unwrap();
    let from = tok.owner;
    lemma_lookup_index(l.tokens, t);
    let p = slot(l.tokens, t);
    lemma_owned_bounds(l.tokens, from, p);
    lemma_owned_bounds(l.tokens, to, p);
    lemma_tokens_below_next(l);
    assert(balance_of(l, from) == owned(l.tokens, from));
    assert(balance_of(l, to) == owned(l.tokens, to));
    let o = lookup(l.owners, from).unwrap();
    let o1 = debited(l.owners, from).unwrap();
    lemma_upsert(
        l.owners,
        from,
        OwnerView { balance: (o.balance - 1) as u64, operators: o.operators },
    );
    if to != from {
        assert(lookup(o1, to) == lookup(l.owners, to));
    }
    crate::nft_theorems::lemma_moved(l, t, to);
    let l2 = crate::nft_state::moved(l, t, to).unwrap();
    let e = (t, TokenView { owner: to, operators: Seq::empty(), metadata: tok.metadata });
    assert(l2.tokens == l.tokens.update(p, e));
    assert forall|a: ActorID| #[trigger] balance_of(l2, a) == owned(l2.tokens, a) by {
        lemma_owned_update(l.tokens, p, e, a);
        assert(balance_of(l, a) == owned(l.tokens, a));
    }
}

proof fn lemma_step_consistent_burn(l: LedgerView, t: TokenID)
    requires
        ledger_ordered(l),
        consistent(l),
        lookup(l.tokens, t) is Some,
    ensures
        crate::nft_state::burned(l, t) is Ok,
        consistent(crate::nft_state::burned(l, t).unwrap()),
{
    let tok = lookup(l.tokens, t).unwrap();
    let from = tok.owner;
    lemma_lookup_index(l.tokens, t);
    let p = slot(l.tokens, t);
    lemma_owned_bounds(l.tokens, from, p);
    assert(balance_of(l, from) == owned(l.tokens, from));
    let o = lookup(l.owners, from).unwrap();
    lemma_upsert(
        l.owners,
        from,
        OwnerView { balance: (o.balance - 1) as u64, operators: o.operators },
    );
    let l2 = crate::nft_state::burned(l, t).unwrap();
    assert(l2.tokens == l.tokens.remove(p));
    assert forall|a: ActorID| #[trigger] balance_of(l2, a) == owned(l2.tokens, a) by {
        lemma_owned_remove(l.tokens, p, a);
        assert(balance_of(l, a) == owned(l.tokens, a));
        if a != from {
            assert(lookup(l2.owners, a) == lookup(l.owners, a));
        }
    }
}

proof fn lemma_step_consistent_operators(
    l: LedgerView,
    t: TokenID,
    operators: spec_fn(Seq<ActorID>) -> Seq<ActorID>,
)
    requires
        ledger_ordered(l),
        consistent(l),
        lookup(l.tokens, t) is Some,
    ensures
        crate::nft_state::with_token_operators(l, t, operators) is Ok,
        consistent(crate::nft_state::with_token_operators(l, t, operators).unwrap()),
{
    let tok = lookup(l.tokens, t).unwrap();
    lemma_lookup_index(l.tokens, t);
    let p = slot(l.tokens, t);
    let l2 = crate::nft_state::with_token_operators(l, t, operators).unwrap();
    let e = (
        t,
        TokenView { owner: tok.owner, operators: operators(tok.operators), metadata: tok.metadata },
    );
    assert(l2.tokens == l.tokens.update(p, e));
    assert forall|a: ActorID| #[trigger] balance_of(l2, a) == owned(l2.tokens, a) by {
        lemma_owned_update(l.tokens, p, e, a);
        assert(balance_of(l, a) == owned(l.tokens, a));
    }
}

/// On a consistent ledger a step is refused only for want of the token
/// or of the permission, never for a reason of bookkeeping; and a step that
/// goes through leaves the ledger consistent.
pub proof fn lemma_step_consistent(l: LedgerView, who: Authority, action: Action, t: TokenID)
    requires
        ledger_ordered(l),
        consistent(l),
    ensures
        step(l, who, action, t) is Err ==> step(l, who, action, t) == Err::<LedgerView, StateError>(
            permitted(l, who, t)->Err_0,
        ) && permitted(l, who, t) is Err && !of_bookkeeping(step(l, who, action, t)->Err_0),
        step(l, who, action, t) is Ok ==> consistent(step(l, who, action, t).unwrap())
            && ledger_ordered(step(l, who, action, t).unwrap()),
{
    if permitted(l, who, t) is Ok {
        match action {
            Action::Transfer { to } => {
                lemma_step_consistent_transfer(l, t, to);
            },
            Action::Burn => {
                lemma_step_consistent_burn(l, t);
            },
            Action::Approve { operator } => {
                lemma_step_consistent_operators(l, t, |s: Seq<ActorID>| with_operator(s, operator));
            },
            Action::Revoke { operator } => {
                lemma_step_consistent_operators(l, t, |s: Seq<ActorID>| without(s, operator));
            },
        }
        crate::nft_theorems::lemma_step_ordered(l, who, action, t);
    }
}

/// A batch on a consistent ledger never fails for a reason of
/// bookkeeping, and a batch that goes through leaves the ledger consistent.
pub proof fn lemma_applied_consistent(l: LedgerView, who: Authority, action: Action, ids: Seq<TokenID>)
    requires
        ledger_ordered(l),
        consistent(l),
    ensures
        applied(l, who, action, ids) is Err ==> !of_bookkeeping(applied(l, who, action, ids)->Err_0),
        applied(l, who, action, ids) is Ok ==> consistent(applied(l, who, action, ids).unwrap())
            && ledger_ordered(applied(l, who, action, ids).unwrap()),
    decreases ids.len(),
{
    if ids.len() > 0 {
        lemma_step_consistent(l, who, action, ids[0]);
        if step(l, who, action, ids[0]) is Ok {
            lemma_applied_consistent(step(l, who, action, ids[0]).unwrap(), who, action, ids.skip(1));
        }
    }
}

proof fn lemma_minted_one_consistent(l: LedgerView, owner: ActorID, metadata: Seq<u8>)
    requires
        ledger_ordered(l),
        consistent(l),
        l.next_token < u64::MAX,
    ensures
        minted_one(l, owner, metadata) is Ok,
        consistent(minted_one(l, owner, metadata).unwrap()),
        ledger_ordered(minted_one(l, owner, metadata).unwrap()),
{
    lemma_tokens_below_next(l);
    assert(balance_of(l, owner) == owned(l.tokens, owner));
    if l.tokens.len() > 0 {
        lemma_owned_bounds(l.tokens, owner, 0);
    }
    let o1 = credited(l.owners, owner).unwrap();
    match lookup(l.owners, owner) {
        Some(o) => {
            lemma_upsert(
                l.owners,
                owner,
                OwnerView { balance: (o.balance + 1) as u64, operators: o.operators },
            );
        },
        None => {
            lemma_upsert(l.owners, owner, OwnerView { balance: 1, operators: Seq::empty() });
        },
    }
    let e = (l.next_token, TokenView { owner, operators: Seq::empty(), metadata });
    lemma_upsert(l.tokens, l.next_token, e.1);
    assert forall|j: int| 0 <= j < l.tokens.len() implies (#[trigger] l.tokens[j]).0 < l.next_token by {
        lemma_lookup_at(l.tokens, j);
    }
    lemma_slot_is(l.tokens, l.next_token, l.tokens.len() as int);
    let l2 = minted_one(l, owner, metadata).unwrap();
    assert(l2.tokens == l.tokens.insert(l.tokens.len() as int, e));
    assert forall|a: ActorID| #[trigger] balance_of(l2, a) == owned(l2.tokens, a) by {
        lemma_owned_insert(l.tokens, l.tokens.len() as int, e, a);
        assert(balance_of(l, a) == owned(l.tokens, a));
        if a != owner {
            assert(lookup(l2.owners, a) == lookup(l.owners, a));
        }
    }
}

/// A mint on a consistent ledger goes through as long as ids are left to
/// hand out, and leaves the ledger consistent.
pub proof fn lemma_minted_consistent(l: LedgerView, owner: ActorID, metadata: Seq<Seq<u8>>)
    requires
        ledger_ordered(l),
        consistent(l),
        l.next_token + metadata.len() <= u64::MAX,
    ensures
        minted(l, owner, metadata) is Ok,
        consistent(minted(l, owner, metadata).unwrap()),
        ledger_ordered(minted(l, owner, metadata).unwrap()),
    decreases metadata.len(),
{
    if metadata.len() > 0 {
        lemma_minted_one_consistent(l, owner, metadata[0]);
        lemma_minted_consistent(minted_one(l, owner, metadata[0]).unwrap(), owner, metadata.skip(1));
    }
}

/// Approving and revoking an operator for all tokens of an account keep
/// the ledger consistent and ordered.
pub proof fn lemma_account_wide_approval_consistent(l: LedgerView, owner: ActorID, operator: ActorID)
    requires
        ledger_ordered(l),
        consistent(l),
    ensures
        consistent(approved_for_owner(l, owner, operator)),
        ledger_ordered(approved_for_owner(l, owner, operator)),
        consistent(revoked_for_owner(l, owner, operator)),
        ledger_ordered(revoked_for_owner(l, owner, operator)),
{
    let a1 = approved_for_owner(l, owner, operator);
    lemma_upsert(
        l.owners,
        owner,
        OwnerView {
            balance: balance_of(l, owner),
            operators: with_operator(operators_of(l, owner), operator),
        },
    );
    assert forall|a: ActorID| #[trigger] balance_of(a1, a) == owned(a1.tokens, a) by {
        assert(balance_of(l, a) == owned(l.tokens, a));
        if a != owner {
            assert(lookup(a1.owners, a) == lookup(l.owners, a));
        }
    }
    let r1 = revoked_for_owner(l, owner, operator);
    match lookup(l.owners, owner) {
        None => {},
        Some(o) => {
            lemma_upsert(
                l.owners,
                owner,
                OwnerView { balance: o.balance, operators: without(o.operators, operator) },
            );
            assert forall|a: ActorID| #[trigger] balance_of(r1, a) == owned(r1.tokens, a) by {
                assert(balance_of(l, a) == owned(l.tokens, a));
                if a != owner {
                    assert(lookup(r1.owners, a) == lookup(l.owners, a));
                }
            }
        },
    }
}

/// The first `n` ids of `ids` are pairwise distinct tokens that `a` owns.
pub open spec fn distinct_and_owned(l: LedgerView, a: ActorID, ids: Seq<TokenID>, n: int) -> bool {
    &&& 0 <= n <= ids.len()
    &&& forall|p: int, q: int| 0 <= p < q < n ==> ids[p] != ids[q]
    &&& forall|p: int| 0 <= p < n ==> owner_of(l, #[trigger] ids[p]) == Ok::<ActorID, StateError>(a)
}

/// On a consistent ledger, a batch of transfers of pairwise distinct
/// tokens by their owner goes through.
pub proof fn lemma_transfer_of_owned_tokens_goes_through(
    l: LedgerView,
    a: ActorID,
    b: ActorID,
    ids: Seq<TokenID>,
)
    requires
        ledger_ordered(l),
        consistent(l),
        distinct_and_owned(l, a, ids, ids.len() as int),
    ensures
        applied(l, Authority::Owner(a), Action::Transfer { to: b }, ids) is Ok,
    decreases ids.len(),
{
    if ids.len() > 0 {
        let who = Authority::Owner(a);
        let action = Action::Transfer { to: b };
        let t = ids[0];
        assert(owner_of(l, t) == Ok::<ActorID, StateError>(a));
        assert(permitted(l, who, t) is Ok);
        lemma_step_consistent(l, who, action, t);
        let l1 = step(l, who, action, t).unwrap();
        assert(l1 == moved(l, t, b).unwrap());
        lemma_moved(l, t, b);
        let rest = ids.skip(1);
        assert forall|p: int| 0 <= p < rest.len() implies owner_of(l1, #[trigger] rest[p]) == Ok::<
            ActorID,
            StateError,
        >(a) by {
            assert(rest[p] == ids[p + 1]);
            assert(ids[0] != ids[p + 1]);
            assert(lookup(l1.tokens, rest[p]) == lookup(l.tokens, rest[p]));
        }
        assert forall|p: int, q: int| 0 <= p < q < rest.len() implies rest[p] != rest[q] by {
            assert(rest[p] == ids[p + 1]);
            assert(rest[q] == ids[q + 1]);
        }
        lemma_transfer_of_owned_tokens_goes_through(l1, a, b, rest);
    }
}

/// On a consistent ledger, a batch of transfers from `a` to another
/// account that names a token a second time at index `j` is refused there
/// with `NotOwner`, naming `a` and that token, where the ids before `j` are
/// pairwise distinct tokens that `a` owns: the token is no longer its own
/// when it is reached again.
pub proof fn lemma_repeated_id_is_refused_as_not_owned(
    l: LedgerView,
    a: ActorID,
    b: ActorID,
    ids: Seq<TokenID>,
    i: int,
    j: int,
)
    requires
        ledger_ordered(l),
        consistent(l),
        a != b,
        0 <= i < j < ids.len(),
        ids[i] == ids[j],
        distinct_and_owned(l, a, ids, j),
    ensures
        applied(l, Authority::Owner(a), Action::Transfer { to: b }, ids) == Err::<
            LedgerView,
            StateError,
        >(StateError::NotOwner { actor: a, token_id: ids[j] }),
{
    let head = ids.take(j);
    assert forall|p: int| 0 <= p < head.len() implies owner_of(l, #[trigger] head[p]) == Ok::<
        ActorID,
        StateError,
    >(a) by {
        assert(head[p] == ids[p]);
    }
    assert forall|p: int, q: int| 0 <= p < q < head.len() implies head[p] != head[q] by {
        assert(head[p] == ids[p]);
        assert(head[q] == ids[q]);
    }
    lemma_transfer_of_owned_tokens_goes_through(l, a, b, head);
    lemma_duplicate_id_refused(l, a, b, ids, i, j);
}

/// On a consistent ledger, a batch of transfers by `a` that names at
/// index `j` an id that is not live is refused there with `TokenNotFound`
/// for that id, where the ids before `j` are pairwise distinct tokens that
/// `a` owns.
pub proof fn lemma_dead_id_is_refused_as_not_found(
    l: LedgerView,
    a: ActorID,
    b: ActorID,
    ids: Seq<TokenID>,
    j: int,
)
    requires
        ledger_ordered(l),
        consistent(l),
        0 <= j < ids.len(),
        owner_of(l, ids[j]) is Err,
        distinct_and_owned(l, a, ids, j),
    ensures
        applied(l, Authority::Owner(a), Action::Transfer { to: b }, ids) == Err::<
            LedgerView,
            StateError,
        >(StateError::TokenNotFound(ids[j])),
{
    let head = ids.take(j);
    assert forall|p: int| 0 <= p < head.len() implies owner_of(l, #[trigger] head[p]) == Ok::<
        ActorID,
        StateError,
    >(a) by {
        assert(head[p] == ids[p]);
    }
    assert forall|p: int, q: int| 0 <= p < q < head.len() implies head[p] != head[q] by {
        assert(head[p] == ids[p]);
        assert(head[q] == ids[q]);
    }
    lemma_transfer_of_owned_tokens_goes_through(l, a, b, head);
    lemma_missing_id_refused(l, Authority::Owner(a), Action::Transfer { to: b }, ids, j);
}

} // verus!
