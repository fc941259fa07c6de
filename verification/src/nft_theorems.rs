//! What holds of every non-fungible ledger, proved from the definitions of
//! its transitions.

use crate::address::ActorID;
use crate::idmap::{lemma_erase, lemma_upsert, lemma_upsert_same, lookup};
use crate::nft_state::{
    applied, approved_operators, balance_of, credited, debited, ledger_ordered,
    lemma_applied_split, lemma_without_absent, minted, minted_one, moved, operators_of, owner_of, permitted,
    revoked_for_owner, step, without, Action, Authority, LedgerView, OwnerView, StateError,
    TokenID, TokenView,
};
use vstd::prelude::*;

verus! {

/// A token whose id has not been handed out yet has no owner: asking for it
/// gives `TokenNotFound`.
pub proof fn lemma_unminted_token_not_found(l: LedgerView, t: TokenID)
    requires
        ledger_ordered(l),
        t >= l.next_token,
    ensures
        owner_of(l, t) == Err::<ActorID, StateError>(StateError::TokenNotFound(t)),
{
}

proof fn lemma_credited(owners: Seq<(ActorID, OwnerView)>, a: ActorID)
    requires
        crate::idmap::ascending(owners),
        credited(owners, a) is Ok,
    ensures
        crate::idmap::ascending(credited(owners, a).unwrap()),
        lookup(credited(owners, a).unwrap(), a) is Some,
        lookup(credited(owners, a).unwrap(), a).unwrap().balance == (match lookup(owners, a) {
            Some(o) => o.balance + 1,
            None => 1,
        }),
        lookup(credited(owners, a).unwrap(), a).unwrap().operators == (match lookup(owners, a) {
            Some(o) => o.operators,
            None => Seq::empty(),
        }),
        forall|k: ActorID| k != a ==> #[trigger] lookup(credited(owners, a).unwrap(), k) == lookup(owners, k),
{
    match lookup(owners, a) {
        Some(o) => {
            lemma_upsert(
                owners,
                a,
                OwnerView { balance: (o.balance + 1) as u64, operators: o.operators },
            );
        },
        None => {
            lemma_upsert(owners, a, OwnerView { balance: 1, operators: Seq::empty() });
        },
    }
}

proof fn lemma_debited(owners: Seq<(ActorID, OwnerView)>, a: ActorID)
    requires
        crate::idmap::ascending(owners),
        debited(owners, a) is Ok,
    ensures
        crate::idmap::ascending(debited(owners, a).unwrap()),
        lookup(owners, a) is Some,
        lookup(debited(owners, a).unwrap(), a) is Some,
        lookup(debited(owners, a).unwrap(), a).unwrap().balance == lookup(owners, a).unwrap().balance - 1,
        lookup(debited(owners, a).unwrap(), a).unwrap().operators == lookup(owners, a).unwrap().operators,
        forall|k: ActorID| k != a ==> #[trigger] lookup(debited(owners, a).unwrap(), k) == lookup(owners, k),
{
    let o = lookup(owners, a).unwrap();
    lemma_upsert(owners, a, OwnerView { balance: (o.balance - 1) as u64, operators: o.operators });
}

/// What a successful move does: the token belongs to `to` and has no approved
/// operators, every other token is as before, and the counters are unchanged.
/// Where the previous owner is not `to`, it holds one token less and `to` one
/// more; every third account holds what it held.
pub proof fn lemma_moved(l: LedgerView, t: TokenID, to: ActorID)
    requires
        ledger_ordered(l),
        moved(l, t, to) is Ok,
    ensures
        ledger_ordered(moved(l, t, to).unwrap()),
        owner_of(l, t) is Ok,
        owner_of(moved(l, t, to).unwrap(), t) == Ok::<ActorID, StateError>(to),
        approved_operators(moved(l, t, to).unwrap(), t) == Ok::<Seq<ActorID>, StateError>(
            Seq::empty(),
        ),
        forall|k: TokenID| k != t ==> #[trigger] lookup(moved(l, t, to).unwrap().tokens, k) == lookup(l.tokens, k),
        moved(l, t, to).unwrap().next_token == l.next_token,
        moved(l, t, to).unwrap().total_supply == l.total_supply,
        owner_of(l, t).unwrap() != to ==> balance_of(moved(l, t, to).unwrap(), owner_of(l, t).unwrap())
            == balance_of(l, owner_of(l, t).unwrap()) - 1,
        owner_of(l, t).unwrap() != to ==> balance_of(moved(l, t, to).unwrap(), to) == balance_of(l, to) + 1,
        owner_of(l, t).unwrap() == to ==> balance_of(moved(l, t, to).unwrap(), to) == balance_of(l, to),
        forall|k: ActorID| k != to && k != owner_of(l, t).unwrap() ==> #[trigger] balance_of(moved(l, t, to).unwrap(), k) == balance_of(l, k),
        forall|k: ActorID| #[trigger] operators_of(moved(l, t, to).unwrap(), k) == operators_of(l, k),
{
    let tok = lookup(l.tokens, t).unwrap();
    let from = tok.owner;
    let o1 = debited(l.owners, from).unwrap();
    lemma_debited(l.owners, from);
    lemma_credited(o1, to);
    let o2 = credited(o1, to).unwrap();
    lemma_upsert(
        l.tokens,
        t,
        TokenView { owner: to, operators: Seq::empty(), metadata: tok.metadata },
    );
    let l2 = moved(l, t, to).unwrap();
    assert(l2.owners == o2);
    assert forall|k: ActorID| k != to && k != from implies #[trigger] balance_of(l2, k) == balance_of(l, k) by {
        assert(lookup(o2, k) == lookup(o1, k));
        assert(lookup(o1, k) == lookup(l.owners, k));
    }
    assert forall|k: ActorID| #[trigger] operators_of(l2, k) == operators_of(l, k) by {
        if k == to {
            if k != from {
                assert(lookup(o1, k) == lookup(l.owners, k));
            }
        } else {
            assert(lookup(o2, k) == lookup(o1, k));
            if k != from {
                assert(lookup(o1, k) == lookup(l.owners, k));
            }
        }
    }
    if from != to {
        assert(lookup(o2, from) == lookup(o1, from));
        assert(lookup(o1, to) == lookup(l.owners, to));
    }
}

/// After a successful transfer of one token from `a` to another account `b`:
/// `b` owns the token, `a` holds exactly one token less, `b` exactly one
/// more, and the token has no approved operators.
pub proof fn lemma_transfer_effect(l: LedgerView, who: Authority, a: ActorID, b: ActorID, t: TokenID)
    requires
        ledger_ordered(l),
        owner_of(l, t) == Ok::<ActorID, StateError>(a),
        a != b,
        applied(l, who, Action::Transfer { to: b }, seq![t]) is Ok,
    ensures
        owner_of(applied(l, who, Action::Transfer { to: b }, seq![t]).unwrap(), t) == Ok::<
            ActorID,
            StateError,
        >(b),
        balance_of(applied(l, who, Action::Transfer { to: b }, seq![t]).unwrap(), a) == balance_of(
            l,
            a,
        ) - 1,
        balance_of(applied(l, who, Action::Transfer { to: b }, seq![t]).unwrap(), b) == balance_of(
            l,
            b,
        ) + 1,
        approved_operators(applied(l, who, Action::Transfer { to: b }, seq![t]).unwrap(), t) == Ok::<
            Seq<ActorID>,
            StateError,
        >(Seq::empty()),
{
    let ids = seq![t];
    assert(ids[0] == t);
    assert(ids.skip(1) =~= Seq::<TokenID>::empty());
    let l1 = step(l, who, Action::Transfer { to: b }, t).unwrap();
    assert(applied(l1, who, Action::Transfer { to: b }, ids.skip(1)) == Ok::<LedgerView, StateError>(l1));
    lemma_moved(l, t, b);
}

/// A successful step keeps the ledger ordered.
pub proof fn lemma_step_ordered(l: LedgerView, who: Authority, action: Action, t: TokenID)
    requires
        ledger_ordered(l),
        step(l, who, action, t) is Ok,
    ensures
        ledger_ordered(step(l, who, action, t).unwrap()),
{
    let tok = lookup(l.tokens, t).unwrap();
    match action {
        Action::Transfer { to } => {
            lemma_moved(l, t, to);
        },
        Action::Burn => {
            lemma_debited(l.owners, tok.owner);
            lemma_erase(l.tokens, t);
        },
        Action::Approve { operator } => {
            let f = |s: Seq<ActorID>| crate::nft_state::with_operator(s, operator);
            lemma_upsert(
                l.tokens,
                t,
                TokenView { owner: tok.owner, operators: f(tok.operators), metadata: tok.metadata },
            );
        },
        Action::Revoke { operator } => {
            let f = |s: Seq<ActorID>| without(s, operator);
            lemma_upsert(
                l.tokens,
                t,
                TokenView { owner: tok.owner, operators: f(tok.operators), metadata: tok.metadata },
            );
        },
    }
}

/// A step never brings a token to life: an id that is not live before is not live after.
pub proof fn lemma_step_creates_nothing(
    l: LedgerView,
    who: Authority,
    action: Action,
    t: TokenID,
    other: TokenID,
)
    requires
        ledger_ordered(l),
        step(l, who, action, t) is Ok,
        lookup(l.tokens, other) is None,
    ensures
        lookup(step(l, who, action, t).unwrap().tokens, other) is None,
{
    let tok = lookup(l.tokens, t).unwrap();
    match action {
        Action::Transfer { to } => {
            lemma_moved(l, t, to);
        },
        Action::Burn => {
            lemma_erase(l.tokens, t);
        },
        Action::Approve { operator } => {
            let f = |s: Seq<ActorID>| crate::nft_state::with_operator(s, operator);
            lemma_upsert(
                l.tokens,
                t,
                TokenView { owner: tok.owner, operators: f(tok.operators), metadata: tok.metadata },
            );
        },
        Action::Revoke { operator } => {
            let f = |s: Seq<ActorID>| without(s, operator);
            lemma_upsert(
                l.tokens,
                t,
                TokenView { owner: tok.owner, operators: f(tok.operators), metadata: tok.metadata },
            );
        },
    }
}

/// A successful batch keeps the ledger ordered, and no id that was not live comes to life.
pub proof fn lemma_applied_ordered(
    l: LedgerView,
    who: Authority,
    action: Action,
    ids: Seq<TokenID>,
    other: TokenID,
)
    requires
        ledger_ordered(l),
        applied(l, who, action, ids) is Ok,
    ensures
        ledger_ordered(applied(l, who, action, ids).unwrap()),
        lookup(l.tokens, other) is None ==> lookup(
            applied(l, who, action, ids).unwrap().tokens,
            other,
        ) is None,
    decreases ids.len(),
{
    if ids.len() > 0 {
        let l1 = step(l, who, action, ids[0]).unwrap();
        lemma_step_ordered(l, who, action, ids[0]);
        if lookup(l.tokens, other) is None {
            lemma_step_creates_nothing(l, who, action, ids[0], other);
        }
        lemma_applied_ordered(l1, who, action, ids.skip(1), other);
    }
}

/// After a successful batch of transfers to `b` by an owner other than
/// `b`, every token of the batch belongs to `b`, and so does every token that
/// belonged to `b` before.
pub proof fn lemma_transferred_tokens_belong_to_recipient(
    l: LedgerView,
    a: ActorID,
    b: ActorID,
    ids: Seq<TokenID>,
    t: TokenID,
)
    requires
        ledger_ordered(l),
        a != b,
        applied(l, Authority::Owner(a), Action::Transfer { to: b }, ids) is Ok,
        ids.contains(t) || owner_of(l, t) == Ok::<ActorID, StateError>(b),
    ensures
        owner_of(applied(l, Authority::Owner(a), Action::Transfer { to: b }, ids).unwrap(), t)
            == Ok::<ActorID, StateError>(b),
    decreases ids.len(),
{
    if ids.len() > 0 {
        let who = Authority::Owner(a);
        let action = Action::Transfer { to: b };
        let l1 = step(l, who, action, ids[0]).unwrap();
        lemma_moved(l, ids[0], b);
        if ids[0] != t && ids.contains(t) {
            let i = choose|i: int| 0 <= i < ids.len() && ids[i] == t;
            assert(ids.skip(1)[i - 1] == t);
        }
        lemma_transferred_tokens_belong_to_recipient(l1, a, b, ids.skip(1), t);
    }
}

/// A batch of transfers from `a` to another account that names a token
/// twice is refused at the second occurrence: if the steps before it go
/// through, the batch fails with `NotOwner`, naming `a` and that token.
pub proof fn lemma_duplicate_id_refused(
    l: LedgerView,
    a: ActorID,
    b: ActorID,
    ids: Seq<TokenID>,
    i: int,
    j: int,
)
    requires
        ledger_ordered(l),
        a != b,
        0 <= i < j < ids.len(),
        ids[i] == ids[j],
        applied(l, Authority::Owner(a), Action::Transfer { to: b }, ids.take(j)) is Ok,
    ensures
        applied(l, Authority::Owner(a), Action::Transfer { to: b }, ids) == Err::<
            LedgerView,
            StateError,
        >(StateError::NotOwner { actor: a, token_id: ids[j] }),
{
    let who = Authority::Owner(a);
    let action = Action::Transfer { to: b };
    lemma_applied_split(l, who, action, ids, j);
    let l1 = applied(l, who, action, ids.take(j)).unwrap();
    assert(ids.take(j)[i] == ids[j]);
    lemma_transferred_tokens_belong_to_recipient(l, a, b, ids.take(j), ids[j]);
    assert(ids.skip(j)[0] == ids[j]);
}

/// A batch that names an id which is not live is refused there: if the
/// steps before it go through, the batch fails with `TokenNotFound` for that id.
pub proof fn lemma_missing_id_refused(
    l: LedgerView,
    who: Authority,
    action: Action,
    ids: Seq<TokenID>,
    j: int,
)
    requires
        ledger_ordered(l),
        0 <= j < ids.len(),
        lookup(l.tokens, ids[j]) is None,
        applied(l, who, action, ids.take(j)) is Ok,
    ensures
        applied(l, who, action, ids) == Err::<LedgerView, StateError>(
            StateError::TokenNotFound(ids[j]),
        ),
{
    lemma_applied_split(l, who, action, ids, j);
    lemma_applied_ordered(l, who, action, ids.take(j), ids[j]);
    assert(ids.skip(j)[0] == ids[j]);
}

/// `caller` owns the live token `t`, or the owner of `t` approved it for
/// all of its tokens.
pub open spec fn manages(l: LedgerView, caller: ActorID, t: TokenID) -> bool {
    match owner_of(l, t) {
        Ok(owner) => owner == caller || operators_of(l, owner).contains(caller),
        Err(_) => false,
    }
}

/// Revoking an operator that is approved for none of the tokens succeeds
/// and changes nothing, for a caller that owns each token or is approved by
/// its owner for all of the owner's tokens.
pub proof fn lemma_revoke_unapproved_changes_nothing(
    l: LedgerView,
    caller: ActorID,
    operator: ActorID,
    ids: Seq<TokenID>,
)
    requires
        ledger_ordered(l),
        forall|i: int|
            0 <= i < ids.len() ==> {
                &&& manages(l, caller, #[trigger] ids[i])
                &&& !approved_operators(l, ids[i]).unwrap().contains(operator)
            },
    ensures
        applied(l, Authority::Manager(caller), Action::Revoke { operator }, ids) == Ok::<
            LedgerView,
            StateError,
        >(l),
    decreases ids.len(),
{
    if ids.len() > 0 {
        let t = ids[0];
        let tok = lookup(l.tokens, t).unwrap();
        lemma_without_absent(tok.operators, operator);
        lemma_upsert_same(l.tokens, t, tok);
        assert forall|i: int| 0 <= i < ids.skip(1).len() implies {
            &&& manages(l, caller, #[trigger] ids.skip(1)[i])
            &&& !approved_operators(l, ids.skip(1)[i]).unwrap().contains(operator)
        } by {
            assert(ids.skip(1)[i] == ids[i + 1]);
        }
        lemma_revoke_unapproved_changes_nothing(l, caller, operator, ids.skip(1));
    }
}

/// Who may grant and withdraw approvals of a token: its owner and every
/// operator that the owner approved for all of its tokens. Anybody else is
/// refused with `NotOwner`, and an id that is not live with `TokenNotFound`.
pub proof fn lemma_managers_of_a_token(l: LedgerView, caller: ActorID, t: TokenID)
    ensures
        permitted(l, Authority::Manager(caller), t) == (if owner_of(l, t) is Err {
            Err::<(), StateError>(StateError::TokenNotFound(t))
        } else if manages(l, caller, t) {
            Ok::<(), StateError>(())
        } else {
            Err::<(), StateError>(StateError::NotOwner { actor: caller, token_id: t })
        }),
{
}

/// Withdrawing an account-wide approval that was never given changes nothing.
pub proof fn lemma_revoke_for_all_unapproved_changes_nothing(
    l: LedgerView,
    owner: ActorID,
    operator: ActorID,
)
    requires
        !operators_of(l, owner).contains(operator),
    ensures
        revoked_for_owner(l, owner, operator) == l,
{
    match lookup(l.owners, owner) {
        None => {},
        Some(o) => {
            lemma_without_absent(o.operators, operator);
            lemma_upsert_same(l.owners, owner, o);
        },
    }
}

/// A successful mint hands out the next unused ids, raises the supply by
/// the number of tokens, gives each new token to `owner` without approved
/// operators, and leaves every token that existed before as it was.
pub proof fn lemma_minted(l: LedgerView, owner: ActorID, metadata: Seq<Seq<u8>>, t: TokenID)
    requires
        ledger_ordered(l),
        minted(l, owner, metadata) is Ok,
    ensures
        ledger_ordered(minted(l, owner, metadata).unwrap()),
        minted(l, owner, metadata).unwrap().next_token == l.next_token + metadata.len(),
        minted(l, owner, metadata).unwrap().total_supply == l.total_supply + metadata.len(),
        t < l.next_token ==> lookup(minted(l, owner, metadata).unwrap().tokens, t) == lookup(
            l.tokens,
            t,
        ),
        l.next_token <= t < l.next_token + metadata.len() ==> lookup(
            minted(l, owner, metadata).unwrap().tokens,
            t,
        ) == Some(
            TokenView { owner, operators: Seq::empty(), metadata: metadata[t - l.next_token] },
        ),
    decreases metadata.len(),
{
    if metadata.len() > 0 {
        let l1 = minted_one(l, owner, metadata[0]).unwrap();
        lemma_credited(l.owners, owner);
        lemma_upsert(
            l.tokens,
            l.next_token,
            TokenView { owner, operators: Seq::empty(), metadata: metadata[0] },
        );
        lemma_minted(l1, owner, metadata.skip(1), t);
        if l.next_token < t < l.next_token + metadata.len() {
            assert(metadata.skip(1)[t - l1.next_token] == metadata[t - l.next_token]);
        }
    }
}

/// An id below the next id that is not live was burnt, and stays dead: no
/// batch and no mint brings it back.
pub proof fn lemma_burnt_id_stays_dead(
    l: LedgerView,
    t: TokenID,
    who: Authority,
    action: Action,
    ids: Seq<TokenID>,
    owner: ActorID,
    metadata: Seq<Seq<u8>>,
)
    requires
        ledger_ordered(l),
        t < l.next_token,
        lookup(l.tokens, t) is None,
    ensures
        applied(l, who, action, ids) is Ok ==> lookup(applied(l, who, action, ids).unwrap().tokens, t) is None
            && t < applied(l, who, action, ids).unwrap().next_token,
        minted(l, owner, metadata) is Ok ==> lookup(minted(l, owner, metadata).unwrap().tokens, t) is None
            && t < minted(l, owner, metadata).unwrap().next_token,
{
    if applied(l, who, action, ids) is Ok {
        lemma_applied_ordered(l, who, action, ids, t);
        lemma_applied_keeps_next_token(l, who, action, ids);
    }
    if minted(l, owner, metadata) is Ok {
        lemma_minted(l, owner, metadata, t);
    }
}

/// A batch hands out no ids: the next id stays.
pub proof fn lemma_applied_keeps_next_token(
    l: LedgerView,
    who: Authority,
    action: Action,
    ids: Seq<TokenID>,
)
    requires
        applied(l, who, action, ids) is Ok,
    ensures
        applied(l, who, action, ids).unwrap().next_token == l.next_token,
    decreases ids.len(),
{
    if ids.len() > 0 {
        let l1 = step(l, who, action, ids[0]).unwrap();
        lemma_applied_keeps_next_token(l1, who, action, ids.skip(1));
    }
}

} // verus!
