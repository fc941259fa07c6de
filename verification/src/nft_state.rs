//! The non-fungible ledger state and its pure state transitions.
//!
//! `LedgerView` is the mathematical model of a ledger. Each transition is a
//! spec function from a ledger to a ledger or an error; the executable
//! operations of `NFTState` are proved to compute exactly these functions and
//! to leave the state untouched when they fail.

use crate::codec::{
    bytes_decoding, bytes_encoding, decode_bytes, decode_list, decode_word, encode_bytes,
    encode_list, encode_word, lemma_bytes_round_trip, lemma_list_round_trip,
    lemma_word_round_trip, list_decoding, list_encoding, word_decoding, word_encoding, Record,
};
use crate::idmap::{
    ascending, erase, lemma_erase, lemma_map_round_trip, lemma_upsert, lookup,
    map_decoding, map_encoding, map_sound, upsert, IdMap,
};
use crate::address::{ActorID, ContentAddress};
use crate::store::{
    get_answered, get_block, put_answered, put_block, Blockstore, StorageError,
};
use vstd::prelude::*;

verus! {

/// Identifies one token of a collection.
pub type TokenID = u64;

/// Why a state transition was refused.
#[derive(Clone, Copy, Debug, PartialEq, Eq)]
pub enum StateError {
    /// No live token has this id.
    TokenNotFound(TokenID),
    /// The actor does not own the token.
    NotOwner { actor: ActorID, token_id: TokenID },
    /// The actor is no approved operator for the token.
    NotAuthorized { actor: ActorID, token_id: TokenID },
    /// The owner table disagrees with the token table.
    InvariantFailed,
    /// A counter would leave the range of 64-bit integers.
    Overflow,
}

/// The model of a token record.
pub ghost struct TokenView {
    pub owner: ActorID,
    pub operators: Seq<ActorID>,
    pub metadata: Seq<u8>,
}

/// The model of an owner record.
pub ghost struct OwnerView {
    pub balance: u64,
    pub operators: Seq<ActorID>,
}

/// The model of a ledger: both tables as entry sequences in key order, and the counters.
pub ghost struct LedgerView {
    pub tokens: Seq<(TokenID, TokenView)>,
    pub owners: Seq<(ActorID, OwnerView)>,
    pub next_token: TokenID,
    pub total_supply: u64,
}

/// On whose authority a batch operation acts.
#[derive(Clone, Copy, Debug, PartialEq, Eq)]
pub enum Authority {
    /// The actor must own every token.
    Owner(ActorID),
    /// The actor must be approved for every token, on the token or by its owner.
    Operator(ActorID),
    /// The actor must own every token, or be approved by its owner for all
    /// of the owner's tokens. Approvals of single tokens are granted and
    /// withdrawn on this authority.
    Manager(ActorID),
}

/// What a batch operation does to each token.
#[derive(Clone, Copy, Debug, PartialEq, Eq)]
pub enum Action {
    /// Hands the token to `to` and clears its approved operators.
    Transfer { to: ActorID },
    /// Deletes the token for good.
    Burn,
    /// Adds `operator` to the token's approved operators.
    Approve { operator: ActorID },
    /// Removes `operator` from the token's approved operators.
    Revoke { operator: ActorID },
}

/// `s` without any occurrence of `x`.
pub open spec fn without(s: Seq<ActorID>, x: ActorID) -> Seq<ActorID>
    decreases s.len(),
{
    if s.len() == 0 {
        s
    } else if s.last() == x {
        without(s.drop_last(), x)
    } else {
        without(s.drop_last(), x).push(s.last())
    }
}

/// `s` with `x` added at the end unless it is already there.
pub open spec fn with_operator(s: Seq<ActorID>, x: ActorID) -> Seq<ActorID> {
    if s.contains(x) {
        s
    } else {
        s.push(x)
    }
}

/// The number of tokens that `a` holds; an account without a record holds none.
pub open spec fn balance_of(l: LedgerView, a: ActorID) -> u64 {
    match lookup(l.owners, a) {
        Some(o) => o.balance,
        None => 0,
    }
}

/// The operators that `a` approved for all of its tokens.
pub open spec fn operators_of(l: LedgerView, a: ActorID) -> Seq<ActorID> {
    match lookup(l.owners, a) {
        Some(o) => o.operators,
        None => Seq::empty(),
    }
}

/// The owner of a token.
pub open spec fn owner_of(l: LedgerView, token_id: TokenID) -> Result<ActorID, StateError> {
    match lookup(l.tokens, token_id) {
        Some(t) => Ok(t.owner),
        None => Err(StateError::TokenNotFound(token_id)),
    }
}

/// The operators approved for a single token.
pub open spec fn approved_operators(l: LedgerView, token_id: TokenID) -> Result<
    Seq<ActorID>,
    StateError,
> {
    match lookup(l.tokens, token_id) {
        Some(t) => Ok(t.operators),
        None => Err(StateError::TokenNotFound(token_id)),
    }
}

/// The owner table after `a` received one token.
pub open spec fn credited(owners: Seq<(ActorID, OwnerView)>, a: ActorID) -> Result<
    Seq<(ActorID, OwnerView)>,
    StateError,
> {
    match lookup(owners, a) {
        Some(o) => if o.balance == u64::MAX {
            Err(StateError::Overflow)
        } else {
            Ok(upsert(owners, a, OwnerView { balance: (o.balance + 1) as u64, operators: o.operators }))
        },
        None => Ok(upsert(owners, a, OwnerView { balance: 1, operators: Seq::empty() })),
    }
}

/// The owner table after `a` gave up one token.
pub open spec fn debited(owners: Seq<(ActorID, OwnerView)>, a: ActorID) -> Result<
    Seq<(ActorID, OwnerView)>,
    StateError,
> {
    match lookup(owners, a) {
        Some(o) => if o.balance == 0 {
            Err(StateError::InvariantFailed)
        } else {
            Ok(upsert(owners, a, OwnerView { balance: (o.balance - 1) as u64, operators: o.operators }))
        },
        None => Err(StateError::InvariantFailed),
    }
}

/// Whether `who` may act on the token.
pub open spec fn permitted(l: LedgerView, who: Authority, token_id: TokenID) -> Result<
    (),
    StateError,
> {
    match lookup(l.tokens, token_id) {
        None => Err(StateError::TokenNotFound(token_id)),
        Some(t) => match who {
            Authority::Owner(a) => if t.owner == a {
                Ok(())
            } else {
                Err(StateError::NotOwner { actor: a, token_id })
            },
            Authority::Operator(a) => if t.operators.contains(a) || operators_of(
                l,
                t.owner,
            ).contains(a) {
                Ok(())
            } else {
                Err(StateError::NotAuthorized { actor: a, token_id })
            },
            Authority::Manager(a) => if t.owner == a || operators_of(l, t.owner).contains(a) {
                Ok(())
            } else {
                Err(StateError::NotOwner { actor: a, token_id })
            },
        },
    }
}

/// The ledger after the token moved to `to`: the previous owner holds one
/// token less, `to` one more, and the token has no approved operators.
pub open spec fn moved(l: LedgerView, token_id: TokenID, to: ActorID) -> Result<
    LedgerView,
    StateError,
> {
    match lookup(l.tokens, token_id) {
        None => Err(StateError::TokenNotFound(token_id)),
        Some(t) => match debited(l.owners, t.owner) {
            Err(e) => Err(e),
            Ok(o1) => match credited(o1, to) {
                Err(e) => Err(e),
                Ok(o2) => Ok(
                    LedgerView {
                        tokens: upsert(
                            l.tokens,
                            token_id,
                            TokenView { owner: to, operators: Seq::empty(), metadata: t.metadata },
                        ),
                        owners: o2,
                        next_token: l.next_token,
                        total_supply: l.total_supply,
                    },
                ),
            },
        },
    }
}

/// The ledger after the token was deleted.
pub open spec fn burned(l: LedgerView, token_id: TokenID) -> Result<LedgerView, StateError> {
    match lookup(l.tokens, token_id) {
        None => Err(StateError::TokenNotFound(token_id)),
        Some(t) => match debited(l.owners, t.owner) {
            Err(e) => Err(e),
            Ok(o1) => if l.total_supply == 0 {
                Err(StateError::InvariantFailed)
            } else {
                Ok(
                    LedgerView {
                        tokens: erase(l.tokens, token_id),
                        owners: o1,
                        next_token: l.next_token,
                        total_supply: (l.total_supply - 1) as u64,
                    },
                )
            },
        },
    }
}

/// The ledger after the token's approved operators were replaced by `operators`.
pub open spec fn with_token_operators(
    l: LedgerView,
    token_id: TokenID,
    operators: spec_fn(Seq<ActorID>) -> Seq<ActorID>,
) -> Result<LedgerView, StateError> {
    match lookup(l.tokens, token_id) {
        None => Err(StateError::TokenNotFound(token_id)),
        Some(t) => Ok(
            LedgerView {
                tokens: upsert(
                    l.tokens,
                    token_id,
                    TokenView { owner: t.owner, operators: operators(t.operators), metadata: t.metadata },
                ),
                owners: l.owners,
                next_token: l.next_token,
                total_supply: l.total_supply,
            },
        ),
    }
}

/// One step of a batch: the permission check, then the action on the token.
pub open spec fn step(l: LedgerView, who: Authority, action: Action, token_id: TokenID) -> Result<
    LedgerView,
    StateError,
> {
    match permitted(l, who, token_id) {
        Err(e) => Err(e),
        Ok(_) => match action {
            Action::Transfer { to } => moved(l, token_id, to),
            Action::Burn => burned(l, token_id),
            Action::Approve { operator } => with_token_operators(
                l,
                token_id,
                |s: Seq<ActorID>| with_operator(s, operator),
            ),
            Action::Revoke { operator } => with_token_operators(
                l,
                token_id,
                |s: Seq<ActorID>| without(s, operator),
            ),
        },
    }
}

/// A batch: the steps for `ids` in order, each on the ledger that the one
/// before it left. The first refusal is the result of the whole batch.
pub open spec fn applied(l: LedgerView, who: Authority, action: Action, ids: Seq<TokenID>) -> Result<
    LedgerView,
    StateError,
>
    decreases ids.len(),
{
    if ids.len() == 0 {
        Ok(l)
    } else {
        match step(l, who, action, ids[0]) {
            Err(e) => Err(e),
            Ok(l1) => applied(l1, who, action, ids.skip(1)),
        }
    }
}

/// A batch that ran in place was refused at its step `j` with `e`: the
/// steps before it were applied and left the ledger `reached`, on which the
/// step for `ids[j]` is refused with `e`.
pub open spec fn stopped_at(
    l: LedgerView,
    who: Authority,
    action: Action,
    ids: Seq<TokenID>,
    j: int,
    reached: LedgerView,
    e: StateError,
) -> bool {
    &&& 0 <= j < ids.len()
    &&& applied(l, who, action, ids.take(j)) == Ok::<LedgerView, StateError>(reached)
    &&& step(reached, who, action, ids[j]) == Err::<LedgerView, StateError>(e)
}

/// A batch is its first `j` steps followed by the rest, and fails with the
/// first refusal among the first `j` steps if there is one.
pub proof fn lemma_applied_split(
    l: LedgerView,
    who: Authority,
    action: Action,
    ids: Seq<TokenID>,
    j: int,
)
    requires
        0 <= j <= ids.len(),
    ensures
        applied(l, who, action, ids) == (match applied(l, who, action, ids.take(j)) {
            Ok(l1) => applied(l1, who, action, ids.skip(j)),
            Err(e) => Err(e),
        }),
    decreases j,
{
    if j == 0 {
        assert(ids.take(0) =~= Seq::<TokenID>::empty());
        assert(ids.skip(0) =~= ids);
    } else {
        let head = ids.take(j);
        assert(head[0] == ids[0]);
        assert(head.skip(1) =~= ids.skip(1).take(j - 1));
        assert(ids.skip(1).skip(j - 1) =~= ids.skip(j));
        match step(l, who, action, ids[0]) {
            Err(e) => {},
            Ok(l1) => {
                lemma_applied_split(l1, who, action, ids.skip(1), j - 1);
            },
        }
    }
}

/// The ledger after one token with the given metadata was minted to `owner`
/// under the next unused id.
pub open spec fn minted_one(l: LedgerView, owner: ActorID, metadata: Seq<u8>) -> Result<
    LedgerView,
    StateError,
> {
    if l.next_token == u64::MAX || l.total_supply == u64::MAX {
        Err(StateError::Overflow)
    } else {
        match credited(l.owners, owner) {
            Err(e) => Err(e),
            Ok(o) => Ok(
                LedgerView {
                    tokens: upsert(
                        l.tokens,
                        l.next_token,
                        TokenView { owner, operators: Seq::empty(), metadata },
                    ),
                    owners: o,
                    next_token: (l.next_token + 1) as u64,
                    total_supply: (l.total_supply + 1) as u64,
                },
            ),
        }
    }
}

/// The ledger after one token per entry of `metadata` was minted to `owner`, in order.
pub open spec fn minted(l: LedgerView, owner: ActorID, metadata: Seq<Seq<u8>>) -> Result<
    LedgerView,
    StateError,
>
    decreases metadata.len(),
{
    if metadata.len() == 0 {
        Ok(l)
    } else {
        match minted_one(l, owner, metadata[0]) {
            Err(e) => Err(e),
            Ok(l1) => minted(l1, owner, metadata.skip(1)),
        }
    }
}

/// The ids `first, first + 1, ..` that a mint of `n` tokens hands out.
pub open spec fn fresh_ids(first: TokenID, n: nat) -> Seq<TokenID> {
    Seq::new(n, |i: int| (first + i) as u64)
}

/// The ledger after `owner` approved `operator` for all of its tokens.
pub open spec fn approved_for_owner(l: LedgerView, owner: ActorID, operator: ActorID) -> LedgerView {
    LedgerView {
        tokens: l.tokens,
        owners: upsert(
            l.owners,
            owner,
            OwnerView {
                balance: balance_of(l, owner),
                operators: with_operator(operators_of(l, owner), operator),
            },
        ),
        next_token: l.next_token,
        total_supply: l.total_supply,
    }
}

/// The ledger after `owner` withdrew the account-wide approval of `operator`.
/// An owner without a record has approved nobody, and nothing changes.
pub open spec fn revoked_for_owner(l: LedgerView, owner: ActorID, operator: ActorID) -> LedgerView {
    match lookup(l.owners, owner) {
        None => l,
        Some(o) => LedgerView {
            tokens: l.tokens,
            owners: upsert(
                l.owners,
                owner,
                OwnerView { balance: o.balance, operators: without(o.operators, operator) },
            ),
            next_token: l.next_token,
            total_supply: l.total_supply,
        },
    }
}

/// Both tables are in key order, and every live token id lies below the
/// next id to be handed out. Every transition keeps this.
pub open spec fn ledger_ordered(l: LedgerView) -> bool {
    &&& ascending(l.tokens)
    &&& ascending(l.owners)
    &&& forall|k: TokenID| lookup(l.tokens, k) is Some ==> k < l.next_token
}

/// The ledgers that valid states have: ordered, and small enough to be laid out.
pub open spec fn ledger_sound(l: LedgerView) -> bool {
    &&& ledger_ordered(l)
    &&& map_sound::<TokenData>(l.tokens)
    &&& map_sound::<OwnerData>(l.owners)
}

/// The layout of a ledger: token table, owner table, next id, supply.
pub open spec fn ledger_encoding(l: LedgerView) -> Seq<u8> {
    map_encoding::<TokenData>(l.tokens) + map_encoding::<OwnerData>(l.owners) + word_encoding(
        l.next_token,
    ) + word_encoding(l.total_supply)
}

/// Reads a ledger from a whole block; fails on truncated or trailing bytes,
/// on tables out of key order, and on a token id that is not below the next id.
pub open spec fn ledger_decoding(b: Seq<u8>) -> Option<LedgerView> {
    match map_decoding::<TokenData>(b) {
        None => None,
        Some((tokens, b1)) => match map_decoding::<OwnerData>(b1) {
            None => None,
            Some((owners, b2)) => match word_decoding(b2) {
                None => None,
                Some((next_token, b3)) => match word_decoding(b3) {
                    None => None,
                    Some((total_supply, b4)) => if b4.len() == 0 && (tokens.len() == 0
                        || tokens.last().0 < next_token) {
                        Some(LedgerView { tokens, owners, next_token, total_supply })
                    } else {
                        None
                    },
                },
            },
        },
    }
}

/// A token record.
pub struct TokenData {
    pub owner: ActorID,
    pub operators: Vec<ActorID>,
    pub metadata: Vec<u8>,
}

/// An owner record.
pub struct OwnerData {
    pub balance: u64,
    pub operators: Vec<ActorID>,
}

impl View for TokenData {
    type V = TokenView;

    open spec fn view(&self) -> TokenView {
        TokenView { owner: self.owner, operators: self.operators@, metadata: self.metadata@ }
    }
}

impl View for OwnerData {
    type V = OwnerView;

    open spec fn view(&self) -> OwnerView {
        OwnerView { balance: self.balance, operators: self.operators@ }
    }
}

impl Record for TokenData {
    open spec fn sound(v: TokenView) -> bool {
        v.operators.len() <= u64::MAX && v.metadata.len() <= u64::MAX
    }

    open spec fn encoding(v: TokenView) -> Seq<u8> {
        word_encoding(v.owner) + list_encoding(v.operators) + bytes_encoding(v.metadata)
    }

    open spec fn decoding(b: Seq<u8>) -> Option<(TokenView, Seq<u8>)> {
        match word_decoding(b) {
            None => None,
            Some((owner, b1)) => match list_decoding(b1) {
                None => None,
                Some((operators, b2)) => match bytes_decoding(b2) {
                    None => None,
                    Some((metadata, b3)) => Some((TokenView { owner, operators, metadata }, b3)),
                },
            },
        }
    }

    proof fn lemma_round_trip(v: TokenView, rest: Seq<u8>) {
        let after_owner = list_encoding(v.operators) + (bytes_encoding(v.metadata) + rest);
        lemma_word_round_trip(v.owner, after_owner);
        lemma_list_round_trip(v.operators, bytes_encoding(v.metadata) + rest);
        lemma_bytes_round_trip(v.metadata, rest);
        assert(Self::encoding(v) + rest =~= word_encoding(v.owner) + after_owner);
    }

    open spec fn valid(&self) -> bool {
        true
    }

    proof fn lemma_valid_sound(&self) {
        assert(self.operators@.len() == self.operators.len());
        assert(self.metadata@.len() == self.metadata.len());
    }

    fn duplicate(&self) -> (r: Self) {
        TokenData {
            owner: self.owner,
            operators: self.operators.clone(),
            metadata: self.metadata.clone(),
        }
    }

    fn encode(&self, out: &mut Vec<u8>) {
        encode_word(self.owner, out);
        encode_list(&self.operators, out);
        encode_bytes(&self.metadata, out);
    }

    fn decode(bytes: &[u8], start: usize) -> (r: Option<(Self, usize)>) {
        let (owner, end1) = match decode_word(bytes, start) {
            Some(pair) => pair,
            None => {
                return None;
            },
        };
        let (operators, end2) = match decode_list(bytes, end1) {
            Some(pair) => pair,
            None => {
                return None;
            },
        };
        let (metadata, end3) = match decode_bytes(bytes, end2) {
            Some(pair) => pair,
            None => {
                return None;
            },
        };
        Some((TokenData { owner, operators, metadata }, end3))
    }
}

impl Record for OwnerData {
    open spec fn sound(v: OwnerView) -> bool {
        v.operators.len() <= u64::MAX
    }

    open spec fn encoding(v: OwnerView) -> Seq<u8> {
        word_encoding(v.balance) + list_encoding(v.operators)
    }

    open spec fn decoding(b: Seq<u8>) -> Option<(OwnerView, Seq<u8>)> {
        match word_decoding(b) {
            None => None,
            Some((balance, b1)) => match list_decoding(b1) {
                None => None,
                Some((operators, b2)) => Some((OwnerView { balance, operators }, b2)),
            },
        }
    }

    proof fn lemma_round_trip(v: OwnerView, rest: Seq<u8>) {
        lemma_word_round_trip(v.balance, list_encoding(v.operators) + rest);
        lemma_list_round_trip(v.operators, rest);
        assert(Self::encoding(v) + rest =~= word_encoding(v.balance) + (list_encoding(v.operators)
            + rest));
    }

    open spec fn valid(&self) -> bool {
        true
    }

    proof fn lemma_valid_sound(&self) {
        assert(self.operators@.len() == self.operators.len());
    }

    fn duplicate(&self) -> (r: Self) {
        OwnerData { balance: self.balance, operators: self.operators.clone() }
    }

    fn encode(&self, out: &mut Vec<u8>) {
        encode_word(self.balance, out);
        encode_list(&self.operators, out);
    }

    fn decode(bytes: &[u8], start: usize) -> (r: Option<(Self, usize)>) {
        let (balance, end1) = match decode_word(bytes, start) {
            Some(pair) => pair,
            None => {
                return None;
            },
        };
        let (operators, end2) = match decode_list(bytes, end1) {
            Some(pair) => pair,
            None => {
                return None;
            },
        };
        Some((OwnerData { balance, operators }, end2))
    }
}

/// Whether `x` occurs in `v`.
pub fn list_contains(v: &Vec<ActorID>, x: ActorID) -> (r: bool)
    ensures
        r == v@.contains(x),
{
    let mut i: usize = 0;
    while i < v.len()
        invariant
            i <= v.len(),
            forall|j: int| 0 <= j < i ==> v@[j] != x,
        decreases v.len() - i,
    {
        if v[i] == x {
            return true;
        }
        i = i + 1;
    }
    false
}

/// A copy of `v` without any occurrence of `x`.
pub fn list_without(v: &Vec<ActorID>, x: ActorID) -> (r: Vec<ActorID>)
    ensures
        r@ == without(v@, x),
{
    let mut out: Vec<ActorID> = Vec::new();
    let mut i: usize = 0;
    assert(v@.take(0) =~= Seq::<ActorID>::empty());
    while i < v.len()
        invariant
            i <= v.len(),
            out@ == without(v@.take(i as int), x),
        decreases v.len() - i,
    {
        assert(v@.take(i + 1).drop_last() =~= v@.take(i as int));
        if v[i] != x {
            out.push(v[i]);
        }
        i = i + 1;
    }
    assert(v@.take(i as int) =~= v@);
    out
}

/// A copy of `v` with `x` added at the end unless it is already there.
pub fn list_with(v: &Vec<ActorID>, x: ActorID) -> (r: Vec<ActorID>)
    ensures
        r@ == with_operator(v@, x),
{
    let mut out = v.clone();
    if !list_contains(v, x) {
        out.push(x);
    }
    out
}

/// Removing an id that does not occur changes nothing.
pub proof fn lemma_without_absent(s: Seq<ActorID>, x: ActorID)
    requires
        !s.contains(x),
    ensures
        without(s, x) == s,
    decreases s.len(),
{
    if s.len() > 0 {
        let t = s.drop_last();
        assert(s.last() == s[s.len() - 1]);
        assert forall|i: int| 0 <= i < t.len() implies t[i] != x by {
            assert(t[i] == s[i]);
        }
        lemma_without_absent(t, x);
        assert(t.push(s.last()) =~= s);
    }
}

/// After removal the id does not occur, and every other id occurs as before.
pub proof fn lemma_without_contains(s: Seq<ActorID>, x: ActorID, y: ActorID)
    ensures
        without(s, x).contains(y) <==> (s.contains(y) && y != x),
    decreases s.len(),
{
    if s.len() > 0 {
        let t = s.drop_last();
        lemma_without_contains(t, x, y);
        let w = without(t, x);
        if s.contains(y) && y != x {
            let i = choose|i: int| 0 <= i < s.len() && s[i] == y;
            if i < t.len() {
                assert(t[i] == y);
                assert(w.contains(y));
                if s.last() != x {
                    let j = choose|j: int| 0 <= j < w.len() && w[j] == y;
                    assert(w.push(s.last())[j] == y);
                }
            } else {
                assert(s.last() == y);
                assert(w.push(s.last())[w.len() as int] == y);
            }
        }
        if without(s, x).contains(y) {
            let r = without(s, x);
            let j = choose|j: int| 0 <= j < r.len() && r[j] == y;
            if s.last() == x {
                assert(w.contains(y));
            } else if j < w.len() {
                assert(w[j] == y);
                assert(w.contains(y));
            } else {
                assert(s.last() == y);
            }
            if w.contains(y) {
                let i = choose|i: int| 0 <= i < t.len() && t[i] == y;
                assert(s[i] == y);
            } else {
                assert(s[s.len() - 1] == y);
            }
        }
    }
}

/// The views of a list of byte strings.
pub open spec fn views(v: Seq<Vec<u8>>) -> Seq<Seq<u8>> {
    Seq::new(v.len(), |i: int| v[i]@)
}

/// The ledger of a new collection: no tokens, no owners, ids start at zero.
pub open spec fn empty_ledger() -> LedgerView {
    LedgerView { tokens: Seq::empty(), owners: Seq::empty(), next_token: 0, total_supply: 0 }
}

/// Decoding inverts encoding for every sound ledger.
pub proof fn lemma_ledger_round_trip(l: LedgerView)
    requires
        ledger_sound(l),
    ensures
        ledger_decoding(ledger_encoding(l)) == Some(l),
{
    let tail2 = word_encoding(l.next_token) + word_encoding(l.total_supply);
    let tail1 = map_encoding::<OwnerData>(l.owners) + tail2;
    lemma_map_round_trip::<TokenData>(l.tokens, tail1);
    lemma_map_round_trip::<OwnerData>(l.owners, tail2);
    lemma_word_round_trip(l.next_token, word_encoding(l.total_supply));
    lemma_word_round_trip(l.total_supply, Seq::empty());
    assert(ledger_encoding(l) =~= map_encoding::<TokenData>(l.tokens) + tail1);
    assert(word_encoding(l.total_supply) + Seq::<u8>::empty() =~= word_encoding(l.total_supply));
    if l.tokens.len() > 0 {
        crate::idmap::lemma_lookup_at(l.tokens, l.tokens.len() - 1);
    }
}

fn credit(owners: &mut IdMap<OwnerData>, a: ActorID) -> (r: Result<(), StateError>)
    requires
        old(owners).valid(),
    ensures
        final(owners).valid(),
        match credited(old(owners)@, a) {
            Ok(o) => r is Ok && final(owners)@ == o,
            Err(e) => r == Err::<(), StateError>(e) && final(owners)@ == old(owners)@,
        },
{
    let record = match owners.get(a) {
        Some(o) => {
            if o.balance == u64::MAX {
                return Err(StateError::Overflow);
            }
            OwnerData { balance: o.balance + 1, operators: o.operators.clone() }
        },
        None => OwnerData { balance: 1, operators: Vec::new() },
    };
    owners.put(a, record);
    Ok(())
}

fn debit(owners: &mut IdMap<OwnerData>, a: ActorID) -> (r: Result<(), StateError>)
    requires
        old(owners).valid(),
    ensures
        final(owners).valid(),
        match debited(old(owners)@, a) {
            Ok(o) => r is Ok && final(owners)@ == o,
            Err(e) => r == Err::<(), StateError>(e) && final(owners)@ == old(owners)@,
        },
{
    let record = match owners.get(a) {
        Some(o) => {
            if o.balance == 0 {
                return Err(StateError::InvariantFailed);
            }
            OwnerData { balance: o.balance - 1, operators: o.operators.clone() }
        },
        None => {
            return Err(StateError::InvariantFailed);
        },
    };
    owners.put(a, record);
    Ok(())
}

/// The aggregate root of a collection: the token table, the owner table,
/// the next id to hand out and the number of live tokens.
pub struct NFTState {
    tokens: IdMap<TokenData>,
    owners: IdMap<OwnerData>,
    next_token: TokenID,
    total_supply: u64,
}

impl View for NFTState {
    type V = LedgerView;

    closed spec fn view(&self) -> LedgerView {
        LedgerView {
            tokens: self.tokens@,
            owners: self.owners@,
            next_token: self.next_token,
            total_supply: self.total_supply,
        }
    }
}

impl NFTState {
    /// The representation invariant: both tables are valid maps and every
    /// live token id lies below the next id to be handed out.
    pub closed spec fn valid(&self) -> bool {
        &&& self.tokens.valid()
        &&& self.owners.valid()
        &&& forall|k: TokenID| lookup(self.tokens@, k) is Some ==> k < self.next_token
    }

    /// The ledger of a valid state is sound.
    pub proof fn lemma_valid_sound(&self)
        requires
            self.valid(),
        ensures
            ledger_sound(self@),
    {
        self.tokens.lemma_valid_sound();
        self.owners.lemma_valid_sound();
    }

    /// The state of a new collection.
    pub fn new() -> (r: Self)
        ensures
            r.valid(),
            r@ == empty_ledger(),
    {
        NFTState { tokens: IdMap::new(), owners: IdMap::new(), next_token: 0, total_supply: 0 }
    }

    /// An independent copy of the state.
    pub fn duplicate(&self) -> (r: Self)
        requires
            self.valid(),
        ensures
            r.valid(),
            r@ == self@,
    {
        NFTState {
            tokens: self.tokens.duplicate(),
            owners: self.owners.duplicate(),
            next_token: self.next_token,
            total_supply: self.total_supply,
        }
    }

    /// The number of live tokens.
    pub fn total_supply(&self) -> (r: u64)
        ensures
            r == self@.total_supply,
    {
        self.total_supply
    }

    /// The id that the next minted token gets.
    pub fn next_token(&self) -> (r: TokenID)
        ensures
            r == self@.next_token,
    {
        self.next_token
    }

    /// The number of tokens that `owner` holds.
    pub fn get_balance(&self, owner: ActorID) -> (r: u64)
        requires
            self.valid(),
        ensures
            r == balance_of(self@, owner),
    {
        match self.owners.get(owner) {
            Some(o) => o.balance,
            None => 0,
        }
    }

    /// The owner of a token; `TokenNotFound` for an id that is not live.
    pub fn get_owner(&self, token_id: TokenID) -> (r: Result<ActorID, StateError>)
        requires
            self.valid(),
        ensures
            r == owner_of(self@, token_id),
    {
        match self.tokens.get(token_id) {
            Some(t) => Ok(t.owner),
            None => Err(StateError::TokenNotFound(token_id)),
        }
    }

    /// The metadata of a token; `TokenNotFound` for an id that is not live.
    pub fn get_metadata(&self, token_id: TokenID) -> (r: Result<Vec<u8>, StateError>)
        requires
            self.valid(),
        ensures
            match r {
                Ok(m) => lookup(self@.tokens, token_id) is Some && m@ == lookup(
                    self@.tokens,
                    token_id,
                ).unwrap().metadata,
                Err(e) => lookup(self@.tokens, token_id) is None && e == StateError::TokenNotFound(
                    token_id,
                ),
            },
    {
        match self.tokens.get(token_id) {
            Some(t) => Ok(t.metadata.clone()),
            None => Err(StateError::TokenNotFound(token_id)),
        }
    }

    /// The operators approved for a single token; `TokenNotFound` for an id that is not live.
    pub fn get_operators(&self, token_id: TokenID) -> (r: Result<Vec<ActorID>, StateError>)
        requires
            self.valid(),
        ensures
            match r {
                Ok(ops) => approved_operators(self@, token_id) == Ok::<Seq<ActorID>, StateError>(
                    ops@,
                ),
                Err(e) => approved_operators(self@, token_id) == Err::<Seq<ActorID>, StateError>(e),
            },
    {
        match self.tokens.get(token_id) {
            Some(t) => Ok(t.operators.clone()),
            None => Err(StateError::TokenNotFound(token_id)),
        }
    }

    /// Whether `owner` approved `operator` for all of its tokens.
    pub fn is_approved_for_all(&self, owner: ActorID, operator: ActorID) -> (r: bool)
        requires
            self.valid(),
        ensures
            r == operators_of(self@, owner).contains(operator),
    {
        match self.owners.get(owner) {
            Some(o) => list_contains(&o.operators, operator),
            None => false,
        }
    }

    /// Whether `who` may act on the token.
    pub fn check(&self, who: Authority, token_id: TokenID) -> (r: Result<(), StateError>)
        requires
            self.valid(),
        ensures
            r == permitted(self@, who, token_id),
    {
        match self.tokens.get(token_id) {
            None => Err(StateError::TokenNotFound(token_id)),
            Some(t) => match who {
                Authority::Owner(a) => if t.owner == a {
                    Ok(())
                } else {
                    Err(StateError::NotOwner { actor: a, token_id })
                },
                Authority::Operator(a) => if list_contains(&t.operators, a)
                    || self.is_approved_for_all(t.owner, a) {
                    Ok(())
                } else {
                    Err(StateError::NotAuthorized { actor: a, token_id })
                },
                Authority::Manager(a) => if t.owner == a || self.is_approved_for_all(t.owner, a) {
                    Ok(())
                } else {
                    Err(StateError::NotOwner { actor: a, token_id })
                },
            },
        }
    }

    /// Succeeds when `owner` owns the token; `TokenNotFound` for an id that
    /// is not live, `NotOwner` for a token of somebody else.
    pub fn owns_token(&self, owner: ActorID, token_id: TokenID) -> (r: Result<(), StateError>)
        requires
            self.valid(),
        ensures
            r == permitted(self@, Authority::Owner(owner), token_id),
    {
        self.check(Authority::Owner(owner), token_id)
    }

    /// Succeeds when `operator` is approved for the token, on the token
    /// itself or by its owner for all tokens.
    pub fn approved_for_token(&self, operator: ActorID, token_id: TokenID) -> (r: Result<
        (),
        StateError,
    >)
        requires
            self.valid(),
        ensures
            r == permitted(self@, Authority::Operator(operator), token_id),
    {
        self.check(Authority::Operator(operator), token_id)
    }

    /// Moves one token to `to` and clears its approved operators, whoever
    /// owns it. On an error nothing changes.
    pub fn make_transfer(&mut self, token_id: TokenID, to: ActorID) -> (r: Result<(), StateError>)
        requires
            old(self).valid(),
        ensures
            final(self).valid(),
            match moved(old(self)@, token_id, to) {
                Ok(l) => r is Ok && final(self)@ == l,
                Err(e) => r == Err::<(), StateError>(e) && final(self)@ == old(self)@,
            },
    {
        let (from, metadata) = match self.tokens.get(token_id) {
            Some(t) => (t.owner, t.metadata.clone()),
            None => {
                return Err(StateError::TokenNotFound(token_id));
            },
        };
        match self.owners.get(from) {
            Some(o) => {
                if o.balance == 0 {
                    return Err(StateError::InvariantFailed);
                }
            },
            None => {
                return Err(StateError::InvariantFailed);
            },
        }
        proof {
            self.owners.lemma_valid_sound();
            let o = lookup(self.owners@, from).unwrap();
            lemma_upsert(
                self.owners@,
                from,
                OwnerView { balance: (o.balance - 1) as u64, operators: o.operators },
            );
        }
        if to != from {
            match self.owners.get(to) {
                Some(o) => {
                    if o.balance == u64::MAX {
                        return Err(StateError::Overflow);
                    }
                },
                None => {},
            }
        }
        match debit(&mut self.owners, from) {
            Err(e) => {
                return Err(e);
            },
            Ok(_) => {},
        }
        match credit(&mut self.owners, to) {
            Err(e) => {
                return Err(e);
            },
            Ok(_) => {},
        }
        proof {
            self.tokens.lemma_valid_sound();
            lemma_upsert(
                self.tokens@,
                token_id,
                TokenView { owner: to, operators: Seq::empty(), metadata: metadata@ },
            );
        }
        self.tokens.put(token_id, TokenData { owner: to, operators: Vec::new(), metadata });
        Ok(())
    }

    fn burn_one(&mut self, token_id: TokenID) -> (r: Result<(), StateError>)
        requires
            old(self).valid(),
        ensures
            final(self).valid(),
            match burned(old(self)@, token_id) {
                Ok(l) => r is Ok && final(self)@ == l,
                Err(e) => r == Err::<(), StateError>(e) && final(self)@ == old(self)@,
            },
    {
        let from = match self.tokens.get(token_id) {
            Some(t) => t.owner,
            None => {
                return Err(StateError::TokenNotFound(token_id));
            },
        };
        match self.owners.get(from) {
            Some(o) => {
                if o.balance == 0 {
                    return Err(StateError::InvariantFailed);
                }
            },
            None => {
                return Err(StateError::InvariantFailed);
            },
        }
        if self.total_supply == 0 {
            return Err(StateError::InvariantFailed);
        }
        match debit(&mut self.owners, from) {
            Err(e) => {
                return Err(e);
            },
            Ok(_) => {},
        }
        proof {
            self.tokens.lemma_valid_sound();
            lemma_erase(self.tokens@, token_id);
        }
        self.tokens.delete(token_id);
        self.total_supply = self.total_supply - 1;
        Ok(())
    }

    fn approve_one(&mut self, operator: ActorID, token_id: TokenID) -> (r: Result<(), StateError>)
        requires
            old(self).valid(),
        ensures
            final(self).valid(),
            match with_token_operators(
                old(self)@,
                token_id,
                |s: Seq<ActorID>| with_operator(s, operator),
            ) {
                Ok(l) => r is Ok && final(self)@ == l,
                Err(e) => r == Err::<(), StateError>(e) && final(self)@ == old(self)@,
            },
    {
        let record = match self.tokens.get(token_id) {
            Some(t) => TokenData {
                owner: t.owner,
                operators: list_with(&t.operators, operator),
                metadata: t.metadata.clone(),
            },
            None => {
                return Err(StateError::TokenNotFound(token_id));
            },
        };
        proof {
            self.tokens.lemma_valid_sound();
            lemma_upsert(self.tokens@, token_id, record@);
        }
        self.tokens.put(token_id, record);
        Ok(())
    }

    fn revoke_one(&mut self, operator: ActorID, token_id: TokenID) -> (r: Result<(), StateError>)
        requires
            old(self).valid(),
        ensures
            final(self).valid(),
            match with_token_operators(
                old(self)@,
                token_id,
                |s: Seq<ActorID>| without(s, operator),
            ) {
                Ok(l) => r is Ok && final(self)@ == l,
                Err(e) => r == Err::<(), StateError>(e) && final(self)@ == old(self)@,
            },
    {
        let record = match self.tokens.get(token_id) {
            Some(t) => TokenData {
                owner: t.owner,
                operators: list_without(&t.operators, operator),
                metadata: t.metadata.clone(),
            },
            None => {
                return Err(StateError::TokenNotFound(token_id));
            },
        };
        proof {
            self.tokens.lemma_valid_sound();
            lemma_upsert(self.tokens@, token_id, record@);
        }
        self.tokens.put(token_id, record);
        Ok(())
    }

    /// One step of a batch on one token. On an error nothing changes.
    pub fn perform(&mut self, who: Authority, action: Action, token_id: TokenID) -> (r: Result<
        (),
        StateError,
    >)
        requires
            old(self).valid(),
        ensures
            final(self).valid(),
            match step(old(self)@, who, action, token_id) {
                Ok(l) => r is Ok && final(self)@ == l,
                Err(e) => r == Err::<(), StateError>(e) && final(self)@ == old(self)@,
            },
    {
        match self.check(who, token_id) {
            Err(e) => {
                return Err(e);
            },
            Ok(_) => {},
        }
        match action {
            Action::Transfer { to } => self.make_transfer(token_id, to),
            Action::Burn => self.burn_one(token_id),
            Action::Approve { operator } => self.approve_one(operator, token_id),
            Action::Revoke { operator } => self.revoke_one(operator, token_id),
        }
    }

    /// Runs a batch in place. On an error the steps before the refused one
    /// stay applied, and nothing else has changed: callers that need all or
    /// nothing run it on a copy.
    pub fn apply(&mut self, who: Authority, action: Action, ids: &[TokenID]) -> (r: Result<
        (),
        StateError,
    >)
        requires
            old(self).valid(),
        ensures
            final(self).valid(),
            match applied(old(self)@, who, action, ids@) {
                Ok(l) => r is Ok && final(self)@ == l,
                Err(e) => r == Err::<(), StateError>(e) && exists|j: int|
                    stopped_at(old(self)@, who, action, ids@, j, final(self)@, e),
            },
    {
        let mut i: usize = 0;
        assert(ids@.skip(0) =~= ids@);
        assert(ids@.take(0) =~= Seq::<TokenID>::empty());
        while i < ids.len()
            invariant
                i <= ids.len(),
                self.valid(),
                applied(old(self)@, who, action, ids@) == applied(
                    self@,
                    who,
                    action,
                    ids@.skip(i as int),
                ),
                applied(old(self)@, who, action, ids@.take(i as int)) == Ok::<
                    LedgerView,
                    StateError,
                >(self@),
            decreases ids.len() - i,
        {
            assert(ids@.skip(i as int)[0] == ids@[i as int]);
            assert(ids@.skip(i as int).skip(1) =~= ids@.skip(i + 1));
            let ghost reached = self@;
            match self.perform(who, action, ids[i]) {
                Err(e) => {
                    assert(stopped_at(old(self)@, who, action, ids@, i as int, self@, e));
                    return Err(e);
                },
                Ok(_) => {},
            }
            proof {
                let head = ids@.take(i + 1);
                lemma_applied_split(old(self)@, who, action, head, i as int);
                assert(head.take(i as int) =~= ids@.take(i as int));
                assert(head.skip(i as int)[0] == ids@[i as int]);
                assert(head.skip(i as int).skip(1) =~= Seq::<TokenID>::empty());
                assert(applied(self@, who, action, Seq::<TokenID>::empty()) == Ok::<
                    LedgerView,
                    StateError,
                >(self@));
                assert(applied(reached, who, action, head.skip(i as int)) == Ok::<
                    LedgerView,
                    StateError,
                >(self@));
            }
            i = i + 1;
        }
        assert(ids@.skip(i as int) =~= Seq::<TokenID>::empty());
        Ok(())
    }

    /// Runs a batch atomically: either every step is applied, or the state
    /// is left exactly as it was and the first refusal is returned.
    pub fn execute(&mut self, who: Authority, action: Action, ids: &[TokenID]) -> (r: Result<
        (),
        StateError,
    >)
        requires
            old(self).valid(),
        ensures
            final(self).valid(),
            match applied(old(self)@, who, action, ids@) {
                Ok(l) => r is Ok && final(self)@ == l,
                Err(e) => r == Err::<(), StateError>(e) && final(self)@ == old(self)@,
            },
    {
        let mut next = self.duplicate();
        match next.apply(who, action, ids) {
            Ok(_) => {
                *self = next;
                Ok(())
            },
            Err(e) => Err(e),
        }
    }

    /// Transfers the tokens from `owner` to `to`, all or none.
    pub fn transfer_tokens(&mut self, owner: ActorID, to: ActorID, ids: &[TokenID]) -> (r: Result<
        (),
        StateError,
    >)
        requires
            old(self).valid(),
        ensures
            final(self).valid(),
            match applied(old(self)@, Authority::Owner(owner), Action::Transfer { to }, ids@) {
                Ok(l) => r is Ok && final(self)@ == l,
                Err(e) => r == Err::<(), StateError>(e) && final(self)@ == old(self)@,
            },
    {
        self.execute(Authority::Owner(owner), Action::Transfer { to }, ids)
    }

    /// Transfers the tokens to `to` on the authority of an approved operator, all or none.
    pub fn operator_transfer_tokens(
        &mut self,
        operator: ActorID,
        to: ActorID,
        ids: &[TokenID],
    ) -> (r: Result<(), StateError>)
        requires
            old(self).valid(),
        ensures
            final(self).valid(),
            match applied(old(self)@, Authority::Operator(operator), Action::Transfer { to }, ids@) {
                Ok(l) => r is Ok && final(self)@ == l,
                Err(e) => r == Err::<(), StateError>(e) && final(self)@ == old(self)@,
            },
    {
        self.execute(Authority::Operator(operator), Action::Transfer { to }, ids)
    }

    /// Burns the tokens of `owner`, all or none, and returns the balance that `owner` is left with.
    pub fn burn_tokens(&mut self, owner: ActorID, ids: &[TokenID]) -> (r: Result<u64, StateError>)
        requires
            old(self).valid(),
        ensures
            final(self).valid(),
            match applied(old(self)@, Authority::Owner(owner), Action::Burn, ids@) {
                Ok(l) => r == Ok::<u64, StateError>(balance_of(l, owner)) && final(self)@ == l,
                Err(e) => r == Err::<u64, StateError>(e) && final(self)@ == old(self)@,
            },
    {
        match self.execute(Authority::Owner(owner), Action::Burn, ids) {
            Ok(_) => Ok(self.get_balance(owner)),
            Err(e) => Err(e),
        }
    }

    /// Burns the tokens on the authority of an approved operator, all or none.
    pub fn operator_burn_tokens(&mut self, operator: ActorID, ids: &[TokenID]) -> (r: Result<
        (),
        StateError,
    >)
        requires
            old(self).valid(),
        ensures
            final(self).valid(),
            match applied(old(self)@, Authority::Operator(operator), Action::Burn, ids@) {
                Ok(l) => r is Ok && final(self)@ == l,
                Err(e) => r == Err::<(), StateError>(e) && final(self)@ == old(self)@,
            },
    {
        self.execute(Authority::Operator(operator), Action::Burn, ids)
    }

    /// Approves `operator` for each of the tokens; all or none. `caller`
    /// must own each token or be approved by its owner for all of the owner's
    /// tokens, else the batch is refused with `NotOwner`.
    pub fn approve_for_tokens(
        &mut self,
        caller: ActorID,
        operator: ActorID,
        ids: &[TokenID],
    ) -> (r: Result<(), StateError>)
        requires
            old(self).valid(),
        ensures
            final(self).valid(),
            match applied(old(self)@, Authority::Manager(caller), Action::Approve { operator }, ids@) {
                Ok(l) => r is Ok && final(self)@ == l,
                Err(e) => r == Err::<(), StateError>(e) && final(self)@ == old(self)@,
            },
    {
        self.execute(Authority::Manager(caller), Action::Approve { operator }, ids)
    }

    /// Withdraws the approval of `operator` for each of the tokens; all or
    /// none. `caller` must own each token or be approved by its owner for all
    /// of the owner's tokens, else the batch is refused with `NotOwner`.
    pub fn revoke_for_tokens(
        &mut self,
        caller: ActorID,
        operator: ActorID,
        ids: &[TokenID],
    ) -> (r: Result<(), StateError>)
        requires
            old(self).valid(),
        ensures
            final(self).valid(),
            match applied(old(self)@, Authority::Manager(caller), Action::Revoke { operator }, ids@) {
                Ok(l) => r is Ok && final(self)@ == l,
                Err(e) => r == Err::<(), StateError>(e) && final(self)@ == old(self)@,
            },
    {
        self.execute(Authority::Manager(caller), Action::Revoke { operator }, ids)
    }

    /// Approves `operator` for every token that `owner` holds now or later.
    pub fn approve_for_owner(&mut self, owner: ActorID, operator: ActorID)
        requires
            old(self).valid(),
        ensures
            final(self).valid(),
            final(self)@ == approved_for_owner(old(self)@, owner, operator),
    {
        let record = match self.owners.get(owner) {
            Some(o) => OwnerData {
                balance: o.balance,
                operators: list_with(&o.operators, operator),
            },
            None => {
                let mut operators: Vec<ActorID> = Vec::new();
                operators.push(operator);
                assert(operators@ =~= with_operator(Seq::<ActorID>::empty(), operator));
                OwnerData { balance: 0, operators }
            },
        };
        self.owners.put(owner, record);
    }

    /// Withdraws the account-wide approval of `operator`. Where there is
    /// nothing to withdraw the state stays as it is.
    pub fn revoke_for_all(&mut self, owner: ActorID, operator: ActorID)
        requires
            old(self).valid(),
        ensures
            final(self).valid(),
            final(self)@ == revoked_for_owner(old(self)@, owner, operator),
    {
        let record = match self.owners.get(owner) {
            Some(o) => OwnerData {
                balance: o.balance,
                operators: list_without(&o.operators, operator),
            },
            None => {
                return ;
            },
        };
        self.owners.put(owner, record);
    }

    fn mint_one(&mut self, owner: ActorID, metadata: Vec<u8>) -> (r: Result<TokenID, StateError>)
        requires
            old(self).valid(),
        ensures
            final(self).valid(),
            match minted_one(old(self)@, owner, metadata@) {
                Ok(l) => r == Ok::<TokenID, StateError>(old(self)@.next_token) && final(self)@ == l,
                Err(e) => r == Err::<TokenID, StateError>(e) && final(self)@ == old(self)@,
            },
    {
        if self.next_token == u64::MAX || self.total_supply == u64::MAX {
            return Err(StateError::Overflow);
        }
        match credit(&mut self.owners, owner) {
            Err(e) => {
                return Err(e);
            },
            Ok(_) => {},
        }
        let id = self.next_token;
        proof {
            self.tokens.lemma_valid_sound();
            lemma_upsert(
                self.tokens@,
                id,
                TokenView { owner, operators: Seq::empty(), metadata: metadata@ },
            );
        }
        self.tokens.put(id, TokenData { owner, operators: Vec::new(), metadata });
        self.next_token = id + 1;
        self.total_supply = self.total_supply + 1;
        Ok(id)
    }

    /// Mints one token per entry of `metadata` to `initial_owner`, all or
    /// none, and returns the ids handed out: consecutive, starting at the
    /// next unused id. An id is never handed out twice, also not after a burn.
    pub fn mint_tokens(&mut self, initial_owner: ActorID, metadata: &Vec<Vec<u8>>) -> (r: Result<
        Vec<TokenID>,
        StateError,
    >)
        requires
            old(self).valid(),
        ensures
            final(self).valid(),
            match minted(old(self)@, initial_owner, views(metadata@)) {
                Ok(l) => r is Ok && r.unwrap()@ == fresh_ids(
                    old(self)@.next_token,
                    metadata@.len(),
                ) && final(self)@ == l,
                Err(e) => r == Err::<Vec<TokenID>, StateError>(e) && final(self)@ == old(self)@,
            },
    {
        let mut next = self.duplicate();
        let mut ids: Vec<TokenID> = Vec::new();
        let mut i: usize = 0;
        let ghost all = views(metadata@);
        assert(all.skip(0) =~= all);
        while i < metadata.len()
            invariant
                i <= metadata.len(),
                all == views(metadata@),
                next.valid(),
                self.valid(),
                self@ == old(self)@,
                minted(old(self)@, initial_owner, all) == minted(
                    next@,
                    initial_owner,
                    all.skip(i as int),
                ),
                next@.next_token == old(self)@.next_token + i,
                ids@ == fresh_ids(old(self)@.next_token, i as nat),
            decreases metadata.len() - i,
        {
            assert(all.skip(i as int)[0] == metadata@[i as int]@);
            assert(all.skip(i as int).skip(1) =~= all.skip(i + 1));
            match next.mint_one(initial_owner, metadata[i].clone()) {
                Err(e) => {
                    return Err(e);
                },
                Ok(id) => {
                    ids.push(id);
                },
            }
            assert(ids@ =~= fresh_ids(old(self)@.next_token, (i + 1) as nat));
            i = i + 1;
        }
        *self = next;
        Ok(ids)
    }

    /// The layout of the state as one block.
    pub fn to_bytes(&self) -> (r: Vec<u8>)
        requires
            self.valid(),
        ensures
            r@ == ledger_encoding(self@),
    {
        let mut out: Vec<u8> = Vec::new();
        self.tokens.encode(&mut out);
        self.owners.encode(&mut out);
        encode_word(self.next_token, &mut out);
        encode_word(self.total_supply, &mut out);
        assert(out@ =~= ledger_encoding(self@));
        out
    }

    /// Reads a state from one block; `None` when the block is no layout of a valid state.
    pub fn from_bytes(bytes: &[u8]) -> (r: Option<Self>)
        ensures
            match r {
                Some(s) => s.valid() && ledger_decoding(bytes@) == Some(s@),
                None => ledger_decoding(bytes@) is None,
            },
    {
        assert(bytes@.skip(0) =~= bytes@);
        let (tokens, end1) = match IdMap::<TokenData>::decode(bytes, 0) {
            Some(pair) => pair,
            None => {
                return None;
            },
        };
        let (owners, end2) = match IdMap::<OwnerData>::decode(bytes, end1) {
            Some(pair) => pair,
            None => {
                return None;
            },
        };
        let (next_token, end3) = match decode_word(bytes, end2) {
            Some(pair) => pair,
            None => {
                return None;
            },
        };
        let (total_supply, end4) = match decode_word(bytes, end3) {
            Some(pair) => pair,
            None => {
                return None;
            },
        };
        if end4 != bytes.len() {
            return None;
        }
        let count = tokens.len();
        if count > 0 && tokens.key_at(count - 1) >= next_token {
            return None;
        }
        proof {
            tokens.lemma_valid_sound();
            assert forall|k: TokenID| lookup(tokens@, k) is Some implies k < next_token by {
                crate::idmap::lemma_lookup_index(tokens@, k);
                let p = crate::idmap::slot(tokens@, k);
                if p < count - 1 {
                    assert(tokens@[p].0 < tokens@[count - 1].0);
                }
            }
        }
        Some(NFTState { tokens, owners, next_token, total_supply })
    }
}


/// The address under which a ledger is flushed.
pub open spec fn ledger_address(l: LedgerView) -> Seq<u8> {
    crate::address::block_address(crate::address::IPLD_RAW, ledger_encoding(l))
}

/// What loading a state from `address` gives, by what the store holds there:
/// `Missing` without a block, `Corrupt` for a block that is no layout of a
/// valid state, else the ledger laid out in the block.
pub open spec fn loaded(blocks: Map<Seq<u8>, Seq<u8>>, address: Seq<u8>) -> Result<
    LedgerView,
    StorageError,
> {
    if !blocks.contains_key(address) {
        Err(StorageError::Missing)
    } else {
        match ledger_decoding(blocks[address]) {
            Some(l) => Ok(l),
            None => Err(StorageError::Corrupt),
        }
    }
}

/// A state that was flushed is loaded back unchanged from the address
/// that the flush returned: same tokens, owners, balances and supply.
pub proof fn lemma_flush_then_load(blocks: Map<Seq<u8>, Seq<u8>>, l: LedgerView, address: Seq<u8>)
    requires
        ledger_sound(l),
    ensures
        loaded(blocks.insert(address, ledger_encoding(l)), address) == Ok::<LedgerView, StorageError>(
            l,
        ),
{
    lemma_ledger_round_trip(l);
}

impl NFTState {
    /// Flushes the state to the store as one block and returns its content
    /// address. The store gains that block and is otherwise unchanged; when
    /// the store cannot be reached it is left as it was.
    pub fn save<BS: Blockstore>(&self, bs: &mut BS) -> (r: Result<ContentAddress, StorageError>)
        requires
            self.valid(),
            old(bs).inv(),
        ensures
            final(bs).inv(),
            put_answered(*old(bs), ledger_encoding(self@), r),
            match r {
                Ok(address) => {
                    &&& address@ == ledger_address(self@)
                    &&& final(bs).blocks() == old(bs).blocks().insert(
                        address@,
                        ledger_encoding(self@),
                    )
                    &&& loaded(final(bs).blocks(), address@) == Ok::<LedgerView, StorageError>(self@)
                },
                Err(e) => e == StorageError::Unavailable && final(bs).blocks() == old(bs).blocks(),
            },
    {
        let bytes = self.to_bytes();
        proof {
            self.lemma_valid_sound();
            lemma_ledger_round_trip(self@);
        }
        put_block(bs, bytes.as_slice())
    }

    /// Loads the state that was flushed to `address`, as `load_outcome`
    /// says.
    pub fn load<BS: Blockstore>(bs: &BS, address: &ContentAddress) -> (r: Result<Self, StorageError>)
        requires
            bs.inv(),
        ensures
            load_outcome(bs, address@, r),
    {
        match get_block(bs, address) {
            Err(e) => Err(e),
            Ok(None) => Err(StorageError::Missing),
            Ok(Some(bytes)) => match NFTState::from_bytes(bytes.as_slice()) {
                Some(state) => Ok(state),
                None => Err(StorageError::Corrupt),
            },
        }
    }
}

/// What loading a state leaves, by what the store answers when asked for
/// the block under `address`: the error of the store; else what the store
/// holds there, as `loaded` says.
pub open spec fn load_outcome<BS: Blockstore>(
    bs: &BS,
    address: Seq<u8>,
    r: Result<NFTState, StorageError>,
) -> bool {
    exists|answer: Result<Option<Vec<u8>>, StorageError>|
        #[trigger] get_answered(bs, address, answer) && match answer {
            Err(e) => r is Err && r->Err_0 == e,
            Ok(_) => match loaded(bs.blocks(), address) {
                Ok(l) => r is Ok && r->Ok_0.valid() && r->Ok_0@ == l,
                Err(e) => r is Err && r->Err_0 == e,
            },
        }
}

} // verus!
