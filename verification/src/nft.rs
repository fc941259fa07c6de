//! The ledger handle of a non-fungible collection: the ledger state
//! together with the blockstore, messaging and actor-root capabilities, the
//! transaction discipline, and the two-phase protocol around receiver hooks.

use crate::actor::{set_root_of, Actor, ActorError, RootRequest};
use crate::address::{ActorID, Address, ContentAddress};
use crate::messaging::{
    both_answered, resolve_both, Messaging, MessagingError, Receipt, TokensReceived,
    TokensReceivedView,
};
use crate::nft_state::{
    applied, approved_for_owner, balance_of, fresh_ids, ledger_address, ledger_encoding,
    load_outcome, loaded, minted, owner_of, revoked_for_owner, views, Action, Authority,
    LedgerView, NFTState, StateError, TokenID,
};
use crate::receiver::{settled, ReceiverHook, ReceiverHookError, RecipientData};
use crate::store::{put_answered, Blockstore, StorageError};
use vstd::prelude::*;

verus! {

/// Why an operation of the handle failed.
#[derive(Debug)]
pub enum NFTError {
    /// The ledger state refused the transition.
    NFTState(StateError),
    /// An address could not be resolved, or another actor could not be called.
    Messaging(MessagingError),
    /// The root of the actor could not be read.
    Actor(ActorError),
    /// The state could not be flushed or loaded.
    Storage(StorageError),
    /// The receiver hook failed or the receiver refused the tokens.
    Receiver(ReceiverHookError),
}

/// What a mint returns once its hook has been called.
#[derive(Debug)]
pub struct MintReturn {
    /// The balance of the owner after the mint.
    pub balance: u64,
    /// The number of live tokens after the mint.
    pub supply: u64,
    /// The ids of the tokens that were minted.
    pub token_ids: Vec<TokenID>,
    /// The data that the receiver hook returned.
    pub recipient_data: Vec<u8>,
}

/// What a mint keeps across the call of its hook.
#[derive(Debug)]
pub struct MintIntermediate {
    /// The account that the tokens were minted to.
    pub to: ActorID,
    /// The ids of the tokens that were minted.
    pub token_ids: Vec<TokenID>,
    /// The data that the receiver hook returned.
    pub recipient_data: Vec<u8>,
}

/// The model of a `MintIntermediate`.
pub ghost struct MintIntermediateView {
    pub to: ActorID,
    pub token_ids: Seq<TokenID>,
    pub recipient_data: Seq<u8>,
}

impl View for MintIntermediate {
    type V = MintIntermediateView;

    open spec fn view(&self) -> MintIntermediateView {
        MintIntermediateView {
            to: self.to,
            token_ids: self.token_ids@,
            recipient_data: self.recipient_data@,
        }
    }
}

impl RecipientData for MintIntermediate {
    open spec fn answered(v: MintIntermediateView, data: Seq<u8>) -> MintIntermediateView {
        MintIntermediateView { to: v.to, token_ids: v.token_ids, recipient_data: data }
    }

    fn set_recipient_data(&mut self, data: Vec<u8>) {
        self.recipient_data = data;
    }
}

/// What a transfer keeps across the call of its hook.
#[derive(Debug)]
pub struct TransferIntermediate {
    /// The ids of the tokens that were transferred.
    pub token_ids: Vec<TokenID>,
    /// The account that gave the tokens.
    pub from: ActorID,
    /// The account that received the tokens.
    pub to: ActorID,
    /// The data that the receiver hook returned.
    pub recipient_data: Vec<u8>,
}

/// The model of a `TransferIntermediate`.
pub ghost struct TransferIntermediateView {
    pub token_ids: Seq<TokenID>,
    pub from: ActorID,
    pub to: ActorID,
    pub recipient_data: Seq<u8>,
}

impl View for TransferIntermediate {
    type V = TransferIntermediateView;

    open spec fn view(&self) -> TransferIntermediateView {
        TransferIntermediateView {
            token_ids: self.token_ids@,
            from: self.from,
            to: self.to,
            recipient_data: self.recipient_data@,
        }
    }
}

impl RecipientData for TransferIntermediate {
    open spec fn answered(v: TransferIntermediateView, data: Seq<u8>) -> TransferIntermediateView {
        TransferIntermediateView {
            token_ids: v.token_ids,
            from: v.from,
            to: v.to,
            recipient_data: data,
        }
    }

    fn set_recipient_data(&mut self, data: Vec<u8>) {
        self.recipient_data = data;
    }
}

/// What a transfer returns once its hook has been called.
#[derive(Debug)]
pub struct TransferReturn {
    /// The balance of the giving account, as it is now.
    pub from_balance: u64,
    /// The balance of the receiving account, as it is now.
    pub to_balance: u64,
    /// The ids of the tokens that were transferred.
    pub token_ids: Vec<TokenID>,
    /// The data that the receiver hook returned.
    pub recipient_data: Vec<u8>,
}

/// The parameters of `Transfer`.
#[derive(Debug)]
pub struct TransferParams {
    pub to: Address,
    pub token_ids: Vec<TokenID>,
    pub operator_data: Vec<u8>,
}

/// The parameters of `TransferFrom`.
#[derive(Debug)]
pub struct TransferFromParams {
    pub from: Address,
    pub to: Address,
    pub token_ids: Vec<TokenID>,
    pub operator_data: Vec<u8>,
}

/// The parameters of `Approve`.
#[derive(Debug)]
pub struct ApproveParams {
    pub operator: Address,
    pub token_ids: Vec<TokenID>,
}

/// The parameters of `ApproveForAll`.
#[derive(Debug)]
pub struct ApproveForAllParams {
    pub operator: Address,
}

/// The parameters of `IsApprovedForAll`.
#[derive(Debug)]
pub struct IsApprovedForAllParams {
    pub owner: Address,
    pub operator: Address,
}

/// The parameters of `Revoke`.
#[derive(Debug)]
pub struct RevokeParams {
    pub operator: Address,
    pub token_ids: Vec<TokenID>,
}

/// The parameters of `RevokeForAll`.
#[derive(Debug)]
pub struct RevokeForAllParams {
    pub operator: Address,
}

/// The interface of an actor that manages a non-fungible collection.
pub trait FRCXXXNFT {
    /// A descriptive name for the collection.
    fn name(&self) -> String;

    /// An abbreviated name for the collection.
    fn symbol(&self) -> String;

    /// A link to the metadata of a token.
    fn metadata_id(&self, params: TokenID) -> ContentAddress;

    /// The number of live tokens.
    fn total_supply(&self) -> u64;

    /// Burns a token for good.
    fn burn(&self, params: TokenID);

    /// The ids of all live tokens.
    fn list_tokens(&self) -> Vec<TokenID>;

    /// The number of tokens that an address holds.
    fn balance_of(&self, params: Address) -> u64;

    /// The owner of a token.
    fn owner_of(&self, params: TokenID) -> ActorID;

    /// Transfers tokens from the caller to another account.
    fn transfer(&self, params: TransferParams);

    /// Transfers tokens between two accounts on the caller's authority as operator.
    fn transfer_from(&self, params: TransferFromParams);

    /// Approves an operator for a set of tokens.
    fn approve(&self, params: ApproveParams);

    /// Approves an operator for all tokens of the caller.
    fn set_approval_for_all(&self, params: ApproveForAllParams);

    /// The approved operator of a token.
    fn get_approved(&self, params: TokenID) -> ActorID;

    /// Whether an address is approved for all tokens of another.
    fn is_approved_for_all(&self, params: IsApprovedForAllParams) -> bool;
}

/// The balance that is reported for an address, by what the address
/// resolved to: the balance of the account; zero for an address without an
/// account, which is a valid state and no failure; any other error as it is.
pub open spec fn reported_balance(l: LedgerView, resolved: Result<ActorID, MessagingError>) -> Result<
    u64,
    NFTError,
> {
    match resolved {
        Ok(owner) => Ok(balance_of(l, owner)),
        Err(MessagingError::AddressNotResolved(_)) => Ok(0),
        Err(e) => Err(NFTError::Messaging(e)),
    }
}

/// The ledger after a revocation, by what the operator's address resolved
/// to. An operator without an account was never approved: that is no error,
/// and nothing changes. Any other failure to resolve is passed on. Else the
/// approval is withdrawn from each token, all or none, on the authority of
/// the caller as owner of the token or as operator for all tokens of its owner.
pub open spec fn revoked_by(
    l: LedgerView,
    caller: ActorID,
    operator: Result<ActorID, MessagingError>,
    ids: Seq<TokenID>,
) -> Result<LedgerView, NFTError> {
    match operator {
        Ok(id) => match applied(l, Authority::Manager(caller), Action::Revoke { operator: id }, ids) {
            Ok(after) => Ok(after),
            Err(e) => Err(NFTError::NFTState(e)),
        },
        Err(MessagingError::AddressNotResolved(_)) => Ok(l),
        Err(e) => Err(NFTError::Messaging(e)),
    }
}

/// The ledger after an account-wide revocation, by what the operator's
/// address resolved to. An operator without an account was never approved:
/// that is no error, and nothing changes. Any other failure to resolve is
/// passed on.
pub open spec fn revoked_for_all_by(
    l: LedgerView,
    owner: ActorID,
    operator: Result<ActorID, MessagingError>,
) -> Result<LedgerView, NFTError> {
    match operator {
        Ok(id) => Ok(revoked_for_owner(l, owner, id)),
        Err(MessagingError::AddressNotResolved(_)) => Ok(l),
        Err(e) => Err(NFTError::Messaging(e)),
    }
}

/// The store holds what it held and the ledger `l`, flushed under its
/// address, from where it is loaded back unchanged.
pub open spec fn committed(
    l: LedgerView,
    blocks: Map<Seq<u8>, Seq<u8>>,
    blocks_after: Map<Seq<u8>, Seq<u8>>,
) -> bool {
    &&& blocks_after == blocks.insert(ledger_address(l), ledger_encoding(l))
    &&& loaded(blocks_after, ledger_address(l)) == Ok::<LedgerView, StorageError>(l)
}

/// What flushing the ledger `l` to the store `bs` leaves, by what the
/// store answers: the address of `l` and the store with `l` under it; or
/// the error of the store, which is then as it was.
pub open spec fn flushed_by<BS: Blockstore>(
    bs: BS,
    l: LedgerView,
    r: Result<ContentAddress, NFTError>,
    blocks_after: Map<Seq<u8>, Seq<u8>>,
) -> bool {
    exists|stored: Result<ContentAddress, StorageError>|
        #[trigger] put_answered(bs, ledger_encoding(l), stored) && match stored {
            Ok(address) => {
                &&& r == Ok::<ContentAddress, NFTError>(address)
                &&& address@ == ledger_address(l)
                &&& committed(l, bs.blocks(), blocks_after)
            },
            Err(e) => {
                &&& r == Err::<ContentAddress, NFTError>(NFTError::Storage(e))
                &&& e == StorageError::Unavailable
                &&& blocks_after == bs.blocks()
            },
        }
}

/// The ledger handle: the state of a collection with the services that its
/// operations need.
pub struct NFT<BS: Blockstore, MSG: Messaging, A: Actor> {
    pub bs: BS,
    pub msg: MSG,
    pub actor: A,
    pub state: NFTState,
}

impl<BS: Blockstore, MSG: Messaging, A: Actor> NFT<BS, MSG, A> {
    /// The state is valid and the store keeps its invariant.
    pub open spec fn valid(&self) -> bool {
        self.state.valid() && self.bs.inv()
    }

    /// Wraps a state in a handle.
    pub fn wrap(bs: BS, msg: MSG, actor: A, state: NFTState) -> (r: Self)
        requires
            state.valid(),
            bs.inv(),
        ensures
            r.valid(),
            r.state@ == state@,
            r.bs == bs,
            r.msg == msg,
            r.actor == actor,
    {
        NFT { bs, msg, actor, state }
    }

    /// Flushes the state and returns the content address of its root, as
    /// `flushed_by` says.
    pub fn flush(&mut self) -> (r: Result<ContentAddress, NFTError>)
        requires
            old(self).valid(),
        ensures
            final(self).valid(),
            final(self).state@ == old(self).state@,
            final(self).msg == old(self).msg,
            final(self).actor == old(self).actor,
            flushed_by(old(self).bs, old(self).state@, r, final(self).bs.blocks()),
    {
        let stored = self.state.save(&mut self.bs);
        match stored {
            Ok(address) => Ok(address),
            Err(e) => Err(NFTError::Storage(e)),
        }
    }

    /// Replaces the state by the one that was flushed to `cid`, and returns
    /// the state that was replaced, as `replaced` says. On an error the state
    /// stays.
    pub fn load_replace(&mut self, cid: &ContentAddress) -> (r: Result<NFTState, NFTError>)
        requires
            old(self).valid(),
        ensures
            final(self).valid(),
            final(self).bs == old(self).bs,
            final(self).msg == old(self).msg,
            final(self).actor == old(self).actor,
            replaced(&old(self).bs, old(self).state@, cid@, r, final(self).state@),
    {
        let load = NFTState::load(&self.bs, cid);
        let ghost load0 = load;
        let r = match load {
            Ok(new_state) => {
                let mut previous = new_state;
                core::mem::swap(&mut self.state, &mut previous);
                Ok(previous)
            },
            Err(e) => Err(NFTError::Storage(e)),
        };
        assert(load_outcome(&old(self).bs, cid@, load0));
        r
    }

    /// Runs `f` on a private copy of the state. If `f` succeeds the copy
    /// becomes the state; if it fails the state is untouched.
    pub fn transaction<F, Res>(&mut self, f: F) -> (r: Result<Res, NFTError>) where
        F: FnOnce(&mut NFTState, &BS) -> Result<Res, NFTError>,

        requires
            old(self).valid(),
            forall|s: &mut NFTState| s.valid() ==> call_requires(f, (s, &old(self).bs)),
            forall|s: &mut NFTState, out: Result<Res, NFTError>|
                s.valid() && call_ensures(f, (s, &old(self).bs), out) ==> final(s).valid(),
        ensures
            final(self).valid(),
            final(self).bs == old(self).bs,
            final(self).msg == old(self).msg,
            final(self).actor == old(self).actor,
            exists|s: &mut NFTState|
                {
                    &&& s.valid()
                    &&& s@ == old(self).state@
                    &&& #[trigger] call_ensures(f, (s, &old(self).bs), r)
                    &&& r is Ok ==> final(self).state@ == final(s)@
                },
            r is Err ==> final(self).state@ == old(self).state@,
    {
        let mut copy = self.state.duplicate();
        let res = f(&mut copy, &self.bs);
        match res {
            Ok(value) => {
                self.state = copy;
                Ok(value)
            },
            Err(e) => Err(e),
        }
    }

    /// The number of live tokens.
    pub fn total_supply(&self) -> (r: u64)
        ensures
            r == self.state@.total_supply,
    {
        self.state.total_supply()
    }

    /// The balance to report for an address, given what it resolved to.
    pub fn balance_for(&self, resolved: Result<ActorID, MessagingError>) -> (r: Result<u64, NFTError>)
        requires
            self.valid(),
        ensures
            r == reported_balance(self.state@, resolved),
    {
        match resolved {
            Ok(owner) => Ok(self.state.get_balance(owner)),
            Err(MessagingError::AddressNotResolved(_)) => Ok(0),
            Err(e) => Err(NFTError::Messaging(e)),
        }
    }

    /// The number of tokens that the account behind `address` holds; zero
    /// where the address has no account.
    pub fn balance_of(&self, address: &Address) -> (r: Result<u64, NFTError>)
        requires
            self.valid(),
        ensures
            exists|resolved: Result<ActorID, MessagingError>|
                call_ensures(MSG::resolve_id, (&self.msg, address), resolved) && r
                    == #[trigger] reported_balance(self.state@, resolved),
    {
        let resolved = self.msg.resolve_id(address);
        let ghost copy = resolved;
        let r = self.balance_for(resolved);
        assert(r == reported_balance(self.state@, copy));
        r
    }

    /// The owner of a token; `TokenNotFound` for an id that is not live.
    pub fn owner_of(&self, token_id: TokenID) -> (r: Result<ActorID, NFTError>)
        requires
            self.valid(),
        ensures
            match owner_of(self.state@, token_id) {
                Ok(owner) => r == Ok::<ActorID, NFTError>(owner),
                Err(e) => r == Err::<ActorID, NFTError>(NFTError::NFTState(e)),
            },
    {
        match self.state.get_owner(token_id) {
            Ok(owner) => Ok(owner),
            Err(e) => Err(NFTError::NFTState(e)),
        }
    }

    /// The metadata of a token; `TokenNotFound` for an id that is not live.
    pub fn metadata(&self, token_id: TokenID) -> (r: Result<Vec<u8>, NFTError>)
        requires
            self.valid(),
        ensures
            match r {
                Ok(m) => crate::idmap::lookup(self.state@.tokens, token_id) is Some && m@
                    == crate::idmap::lookup(self.state@.tokens, token_id).unwrap().metadata,
                Err(e) => crate::idmap::lookup(self.state@.tokens, token_id) is None && e
                    == NFTError::NFTState(StateError::TokenNotFound(token_id)),
            },
    {
        match self.state.get_metadata(token_id) {
            Ok(m) => Ok(m),
            Err(e) => Err(NFTError::NFTState(e)),
        }
    }
}

/// What running a batch of transfers in place leaves: the ledger with
/// every token moved, or the first refusal.
pub open spec fn transfer_applied(
    before: LedgerView,
    who: Authority,
    to: ActorID,
    ids: Seq<TokenID>,
    out: Result<(), NFTError>,
    after: LedgerView,
) -> bool {
    match applied(before, who, Action::Transfer { to }, ids) {
        Ok(l) => out is Ok && after == l,
        Err(e) => out == Err::<(), NFTError>(NFTError::NFTState(e)),
    }
}

/// The result of a state transition as a result of the handle.
pub fn in_place(done: Result<(), StateError>) -> (r: Result<(), NFTError>)
    ensures
        r == (match done {
            Ok(_) => Ok::<(), NFTError>(()),
            Err(e) => Err::<(), NFTError>(NFTError::NFTState(e)),
        }),
{
    match done {
        Ok(_) => Ok(()),
        Err(e) => Err(NFTError::NFTState(e)),
    }
}

/// What a mint by resolved accounts leaves: on success the ledger with the
/// tokens minted and a pending hook that tells `owner` of them; on failure
/// the error of the state and the ledger as it was.
pub open spec fn mint_settled(
    before: LedgerView,
    operator: ActorID,
    owner: ActorID,
    metadata: Seq<Seq<u8>>,
    operator_data: Seq<u8>,
    token_data: Seq<u8>,
    r: Result<ReceiverHook<MintIntermediate>, NFTError>,
    after: LedgerView,
) -> bool {
    match minted(before, owner, metadata) {
        Ok(l) => {
            &&& r is Ok
            &&& after == l
            &&& r->Ok_0.valid()
            &&& r->Ok_0.pending()
            &&& r->Ok_0.intermediate() == MintIntermediateView {
                to: owner,
                token_ids: fresh_ids(before.next_token, metadata.len()),
                recipient_data: Seq::empty(),
            }
            &&& r->Ok_0.notice() == TokensReceivedView {
                operator,
                from: operator,
                to: owner,
                amount: 0,
                token_ids: fresh_ids(before.next_token, metadata.len()),
                operator_data,
                token_data,
            }
        },
        Err(e) => r is Err && r->Err_0 == NFTError::NFTState(e) && after == before,
    }
}

/// The account that an authority names.
pub open spec fn acting(who: Authority) -> ActorID {
    match who {
        Authority::Owner(a) => a,
        Authority::Operator(a) => a,
        Authority::Manager(a) => a,
    }
}

/// What a transfer by resolved accounts leaves: on success the ledger with
/// every token moved and a pending hook that tells `to` of them; on failure
/// the first refusal and the ledger as it was.
pub open spec fn transfer_settled(
    before: LedgerView,
    who: Authority,
    to: ActorID,
    ids: Seq<TokenID>,
    operator_data: Seq<u8>,
    token_data: Seq<u8>,
    r: Result<ReceiverHook<TransferIntermediate>, NFTError>,
    after: LedgerView,
) -> bool {
    match applied(before, who, Action::Transfer { to }, ids) {
        Ok(l) => {
            &&& r is Ok
            &&& after == l
            &&& r->Ok_0.valid()
            &&& r->Ok_0.pending()
            &&& r->Ok_0.intermediate() == TransferIntermediateView {
                token_ids: ids,
                from: acting(who),
                to,
                recipient_data: Seq::empty(),
            }
            &&& r->Ok_0.notice() == TokensReceivedView {
                operator: acting(who),
                from: acting(who),
                to,
                amount: 0,
                token_ids: ids,
                operator_data,
                token_data,
            }
        },
        Err(e) => r is Err && r->Err_0 == NFTError::NFTState(e) && after == before,
    }
}

/// What replacing the state by the one flushed to `address` leaves, by
/// how loading it went, as `load_outcome` says: the state that was loaded
/// is the state and the one before is returned; or the state stays and the
/// error says why.
pub open spec fn replaced<BS: Blockstore>(
    bs: &BS,
    before: LedgerView,
    address: Seq<u8>,
    r: Result<NFTState, NFTError>,
    after: LedgerView,
) -> bool {
    exists|load: Result<NFTState, StorageError>|
        #[trigger] load_outcome(bs, address, load) && match load {
            Ok(state) => r is Ok && r->Ok_0.valid() && r->Ok_0@ == before && after == state@,
            Err(e) => r is Err && r->Err_0 == NFTError::Storage(e) && after == before,
        }
}

/// What reconciling with the root leaves, where `current` is the root of
/// the actor and `expected` the root that the caller last knew: with both
/// equal the state stays and nothing is returned; else the state is replaced
/// by the one flushed to `current`, as `replaced` says, and the replaced
/// state is returned; if that cannot be loaded the state stays and the error
/// says why.
pub open spec fn reloaded<BS: Blockstore>(
    before: LedgerView,
    bs: &BS,
    current: Seq<u8>,
    expected: Seq<u8>,
    r: Result<Option<NFTState>, NFTError>,
    after: LedgerView,
) -> bool {
    if current == expected {
        r is Ok && r->Ok_0 is None && after == before
    } else {
        exists|swap: Result<NFTState, NFTError>|
            #[trigger] replaced(bs, before, current, swap, after) && match swap {
                Ok(previous) => r is Ok && r->Ok_0 == Some(previous),
                Err(e) => r is Err && r->Err_0 == e,
            }
    }
}

/// What reconciling with the root leaves, by what `actor` answers when
/// asked for its root, where `expected` is the root that the caller last
/// knew: without an answer the state stays and the error of the actor is
/// returned; with an answer, what `reloaded` says.
pub open spec fn reload_outcome<BS: Blockstore, A: Actor>(
    actor: &A,
    before: LedgerView,
    bs: &BS,
    expected: Seq<u8>,
    r: Result<Option<NFTState>, NFTError>,
    after: LedgerView,
) -> bool {
    exists|answer: Result<ContentAddress, ActorError>|
        #[trigger] call_ensures(A::root_cid, (actor,), answer) && match answer {
            Err(e) => r == Err::<Option<NFTState>, NFTError>(NFTError::Actor(e)) && after == before,
            Ok(current) => reloaded(before, bs, current@, expected, r, after),
        }
}

/// What building the result of a transfer leaves: the state was
/// reconciled with the root as `reload_outcome` says; if that failed its
/// error is returned; else the balances returned are those of the state in
/// memory, which is the one under the actor's root.
pub open spec fn transfer_returned<BS: Blockstore, A: Actor>(
    actor: &A,
    before: LedgerView,
    bs: &BS,
    prior: Seq<u8>,
    intermediate: TransferIntermediateView,
    r: Result<TransferReturn, NFTError>,
    after: LedgerView,
) -> bool {
    exists|reload: Result<Option<NFTState>, NFTError>|
        #[trigger] reload_outcome(actor, before, bs, prior, reload, after) && match reload {
            Err(e) => r == Err::<TransferReturn, NFTError>(e),
            Ok(_) => {
                &&& r is Ok
                &&& r->Ok_0.from_balance == balance_of(after, intermediate.from)
                &&& r->Ok_0.to_balance == balance_of(after, intermediate.to)
                &&& r->Ok_0.token_ids@ == intermediate.token_ids
                &&& r->Ok_0.recipient_data@ == intermediate.recipient_data
            },
        }
}

/// What building the result of a mint leaves, as `transfer_returned` says
/// for a transfer.
pub open spec fn mint_returned<BS: Blockstore, A: Actor>(
    actor: &A,
    before: LedgerView,
    bs: &BS,
    prior: Seq<u8>,
    intermediate: MintIntermediateView,
    r: Result<MintReturn, NFTError>,
    after: LedgerView,
) -> bool {
    exists|reload: Result<Option<NFTState>, NFTError>|
        #[trigger] reload_outcome(actor, before, bs, prior, reload, after) && match reload {
            Err(e) => r == Err::<MintReturn, NFTError>(e),
            Ok(_) => {
                &&& r is Ok
                &&& r->Ok_0.balance == balance_of(after, intermediate.to)
                &&& r->Ok_0.supply == after.total_supply
                &&& r->Ok_0.token_ids@ == intermediate.token_ids
                &&& r->Ok_0.recipient_data@ == intermediate.recipient_data
            },
        }
}

/// What a mint leaves, by what `msg` answers for the operator, which must
/// have an account, and for the owner, which gets one if it has none: the
/// error of messaging, and nothing changed; else what `mint_settled` says.
pub open spec fn mint_outcome<MSG: Messaging>(
    msg: &MSG,
    operator: &Address,
    initial_owner: &Address,
    before: LedgerView,
    metadata: Seq<Seq<u8>>,
    operator_data: Seq<u8>,
    token_data: Seq<u8>,
    r: Result<ReceiverHook<MintIntermediate>, NFTError>,
    after: LedgerView,
) -> bool {
    exists|ids: Result<(ActorID, ActorID), MessagingError>|
        #[trigger] both_answered(msg, operator, false, initial_owner, true, ids) && match ids {
            Err(e) => r is Err && r->Err_0 == NFTError::Messaging(e) && after == before,
            Ok(pair) => mint_settled(
                before,
                pair.0,
                pair.1,
                metadata,
                operator_data,
                token_data,
                r,
                after,
            ),
        }
}

/// The authority of the account `actor`, as owner or as operator.
pub open spec fn authority(as_operator: bool, actor: ActorID) -> Authority {
    if as_operator {
        Authority::Operator(actor)
    } else {
        Authority::Owner(actor)
    }
}

/// What a transfer leaves, by what `msg` answers for the two addresses,
/// each of which gets an account if it has none: the error of messaging,
/// and nothing changed; else what `transfer_settled` says, where the first
/// account acts as owner, or as operator where `as_operator` holds.
pub open spec fn transfer_outcome<MSG: Messaging>(
    msg: &MSG,
    actor: &Address,
    recipient: &Address,
    before: LedgerView,
    as_operator: bool,
    ids: Seq<TokenID>,
    operator_data: Seq<u8>,
    token_data: Seq<u8>,
    r: Result<ReceiverHook<TransferIntermediate>, NFTError>,
    after: LedgerView,
) -> bool {
    exists|accounts: Result<(ActorID, ActorID), MessagingError>|
        #[trigger] both_answered(msg, actor, true, recipient, true, accounts) && match accounts {
            Err(e) => r is Err && r->Err_0 == NFTError::Messaging(e) && after == before,
            Ok(pair) => transfer_settled(
                before,
                authority(as_operator, pair.0),
                pair.1,
                ids,
                operator_data,
                token_data,
                r,
                after,
            ),
        }
}

/// What an approval leaves, by what `msg` answers for the caller, which
/// must have an account, and for the operator, which gets one if it has
/// none: the error of messaging, and nothing changed; else the ledger after
/// the batch, or its first refusal and nothing changed. The caller acts as
/// owner of each token or as operator for all tokens of its owner.
pub open spec fn approve_outcome<MSG: Messaging>(
    msg: &MSG,
    caller: &Address,
    operator: &Address,
    before: LedgerView,
    ids: Seq<TokenID>,
    r: Result<(), NFTError>,
    after: LedgerView,
) -> bool {
    exists|accounts: Result<(ActorID, ActorID), MessagingError>|
        #[trigger] both_answered(msg, caller, false, operator, true, accounts) && match accounts {
            Err(e) => r == Err::<(), NFTError>(NFTError::Messaging(e)) && after == before,
            Ok(pair) => match applied(
                before,
                Authority::Manager(pair.0),
                Action::Approve { operator: pair.1 },
                ids,
            ) {
                Ok(l) => r is Ok && after == l,
                Err(e) => r == Err::<(), NFTError>(NFTError::NFTState(e)) && after == before,
            },
        }
}

/// What a revocation leaves, given the answers for the caller and for the
/// operator: the error for the caller, and nothing changed; else what
/// `revoked_by` gives.
pub open spec fn revoke_decided(
    caller: Result<ActorID, MessagingError>,
    operator: Result<ActorID, MessagingError>,
    before: LedgerView,
    ids: Seq<TokenID>,
    r: Result<(), NFTError>,
    after: LedgerView,
) -> bool {
    match caller {
        Err(e) => r == Err::<(), NFTError>(NFTError::Messaging(e)) && after == before,
        Ok(caller_id) => match revoked_by(before, caller_id, operator, ids) {
            Ok(l) => r is Ok && after == l,
            Err(e) => r == Err::<(), NFTError>(e) && after == before,
        },
    }
}

/// What a revocation leaves, by what `msg` answers for the caller and,
/// where the caller has an account, for the operator.
pub open spec fn revoke_outcome<MSG: Messaging>(
    msg: &MSG,
    caller: &Address,
    operator: &Address,
    before: LedgerView,
    ids: Seq<TokenID>,
    r: Result<(), NFTError>,
    after: LedgerView,
) -> bool {
    exists|a: Result<ActorID, MessagingError>, found: Result<ActorID, MessagingError>|
        {
            &&& call_ensures(MSG::resolve_id, (msg, caller), a)
            &&& a is Ok ==> call_ensures(MSG::resolve_id, (msg, operator), found)
            &&& #[trigger] revoke_decided(a, found, before, ids, r, after)
        }
}

/// What an account-wide approval leaves, by what `msg` answers for the
/// owner, which must have an account, and for the operator, which gets one
/// if it has none: the error of messaging, and nothing changed; else the
/// ledger with the approval.
pub open spec fn approve_for_owner_outcome<MSG: Messaging>(
    msg: &MSG,
    owner: &Address,
    operator: &Address,
    before: LedgerView,
    r: Result<(), NFTError>,
    after: LedgerView,
) -> bool {
    exists|accounts: Result<(ActorID, ActorID), MessagingError>|
        #[trigger] both_answered(msg, owner, false, operator, true, accounts) && match accounts {
            Err(e) => r == Err::<(), NFTError>(NFTError::Messaging(e)) && after == before,
            Ok(pair) => r is Ok && after == approved_for_owner(before, pair.0, pair.1),
        }
}

/// What an account-wide revocation leaves, given the answers for the
/// owner and for the operator: the error for the owner, and nothing
/// changed; else what `revoked_for_all_by` gives.
pub open spec fn revoke_for_all_decided(
    owner: Result<ActorID, MessagingError>,
    operator: Result<ActorID, MessagingError>,
    before: LedgerView,
    r: Result<(), NFTError>,
    after: LedgerView,
) -> bool {
    match owner {
        Err(e) => r == Err::<(), NFTError>(NFTError::Messaging(e)) && after == before,
        Ok(owner_id) => match revoked_for_all_by(before, owner_id, operator) {
            Ok(l) => r is Ok && after == l,
            Err(e) => r == Err::<(), NFTError>(e) && after == before,
        },
    }
}

/// What an account-wide revocation leaves, by what `msg` answers for the
/// owner and, where the owner has an account, for the operator.
pub open spec fn revoke_for_all_outcome<MSG: Messaging>(
    msg: &MSG,
    owner: &Address,
    operator: &Address,
    before: LedgerView,
    r: Result<(), NFTError>,
    after: LedgerView,
) -> bool {
    exists|a: Result<ActorID, MessagingError>, found: Result<ActorID, MessagingError>|
        {
            &&& call_ensures(MSG::resolve_id, (msg, owner), a)
            &&& a is Ok ==> call_ensures(MSG::resolve_id, (msg, operator), found)
            &&& #[trigger] revoke_for_all_decided(a, found, before, r, after)
        }
}

impl<BS: Blockstore, MSG: Messaging, A: Actor> NFT<BS, MSG, A> {
    /// The services are the same values in both handles.
    pub open spec fn same_services(&self, other: &Self) -> bool {
        self.bs == other.bs && self.msg == other.msg && self.actor == other.actor
    }

    /// Mints one token per entry of `metadata_array` to the account
    /// `initial_owner`, all or none, and returns the hook that notifies it.
    pub fn mint_resolved(
        &mut self,
        operator: ActorID,
        initial_owner: ActorID,
        metadata_array: &Vec<Vec<u8>>,
        operator_data: Vec<u8>,
        token_data: Vec<u8>,
    ) -> (r: Result<ReceiverHook<MintIntermediate>, NFTError>)
        requires
            old(self).valid(),
        ensures
            final(self).valid(),
            final(self).same_services(old(self)),
            mint_settled(
                old(self).state@,
                operator,
                initial_owner,
                views(metadata_array@),
                operator_data@,
                token_data@,
                r,
                final(self).state@,
            ),
    {
        match self.state.mint_tokens(initial_owner, metadata_array) {
            Ok(token_ids) => {
                let notice = TokensReceived {
                    operator,
                    from: operator,
                    to: initial_owner,
                    amount: 0,
                    token_ids: token_ids.clone(),
                    operator_data,
                    token_data,
                };
                let intermediate = MintIntermediate {
                    to: initial_owner,
                    token_ids,
                    recipient_data: Vec::new(),
                };
                Ok(ReceiverHook::new(notice, intermediate))
            },
            Err(e) => Err(NFTError::NFTState(e)),
        }
    }

    /// Mints one token per entry of `metadata_array` to `initial_owner`,
    /// all or none, and returns the hook that notifies the owner, as
    /// `mint_outcome` says. The operator must have an account; the owner gets
    /// one if it has none. When an address does not resolve nothing changes.
    pub fn mint(
        &mut self,
        operator: &Address,
        initial_owner: &Address,
        metadata_array: Vec<Vec<u8>>,
        operator_data: Vec<u8>,
        token_data: Vec<u8>,
    ) -> (r: Result<ReceiverHook<MintIntermediate>, NFTError>)
        requires
            old(self).valid(),
        ensures
            final(self).valid(),
            final(self).same_services(old(self)),
            mint_outcome(
                &old(self).msg,
                operator,
                initial_owner,
                old(self).state@,
                views(metadata_array@),
                operator_data@,
                token_data@,
                r,
                final(self).state@,
            ),
    {
        match resolve_both(&self.msg, operator, false, initial_owner, true) {
            Err(e) => Err(NFTError::Messaging(e)),
            Ok((operator_id, owner_id)) => self.mint_resolved(
                operator_id,
                owner_id,
                &metadata_array,
                operator_data,
                token_data,
            ),
        }
    }

    /// Reconciles the state with `current`, the root of the actor, where
    /// `expected` is the root that the caller last knew.
    pub fn reload_from(&mut self, current: &ContentAddress, expected: &ContentAddress) -> (r: Result<
        Option<NFTState>,
        NFTError,
    >)
        requires
            old(self).valid(),
        ensures
            final(self).valid(),
            final(self).same_services(old(self)),
            reloaded(
                old(self).state@,
                &old(self).bs,
                current@,
                expected@,
                r,
                final(self).state@,
            ),
    {
        if current.same(expected) {
            Ok(None)
        } else {
            let swap = self.load_replace(current);
            let ghost swap0 = swap;
            let r = match swap {
                Ok(previous) => Ok(Some(previous)),
                Err(e) => Err(e),
            };
            assert(replaced(&old(self).bs, old(self).state@, current@, swap0, self.state@));
            r
        }
    }

    /// Reloads the state if the root of the actor is no longer
    /// `expected_cid`, as happens when a receiver hook re-entered the actor
    /// and changed the ledger, as `reload_outcome` says. Returns the state
    /// that was replaced, if any. When the root cannot be read the state stays.
    pub fn reload_if_changed(&mut self, expected_cid: &ContentAddress) -> (r: Result<
        Option<NFTState>,
        NFTError,
    >)
        requires
            old(self).valid(),
        ensures
            final(self).valid(),
            final(self).same_services(old(self)),
            reload_outcome(
                &old(self).actor,
                old(self).state@,
                &old(self).bs,
                expected_cid@,
                r,
                final(self).state@,
            ),
    {
        match self.actor.root_cid() {
            Ok(current) => self.reload_from(&current, expected_cid),
            Err(e) => Err(NFTError::Actor(e)),
        }
    }

    /// Builds the result of a mint after its hook was called, as
    /// `mint_returned` says. The state is first reconciled with the root, so
    /// that the balance and the supply are those of the ledger as it is now.
    pub fn mint_return(&mut self, intermediate: MintIntermediate, prior_state_cid: &ContentAddress) -> (r:
        Result<MintReturn, NFTError>)
        requires
            old(self).valid(),
        ensures
            final(self).valid(),
            final(self).same_services(old(self)),
            mint_returned(
                &old(self).actor,
                old(self).state@,
                &old(self).bs,
                prior_state_cid@,
                intermediate@,
                r,
                final(self).state@,
            ),
    {
        match self.reload_if_changed(prior_state_cid) {
            Ok(_) => {},
            Err(e) => {
                return Err(e);
            },
        }
        Ok(
            MintReturn {
                balance: self.state.get_balance(intermediate.to),
                supply: self.state.total_supply(),
                token_ids: intermediate.token_ids,
                recipient_data: intermediate.recipient_data,
            },
        )
    }

    /// Burns tokens of `owner`, all or none, and returns the balance that
    /// `owner` is left with. A burnt id is never handed out again.
    pub fn burn(&mut self, owner: ActorID, token_ids: &[TokenID]) -> (r: Result<u64, NFTError>)
        requires
            old(self).valid(),
        ensures
            final(self).valid(),
            final(self).same_services(old(self)),
            match applied(old(self).state@, Authority::Owner(owner), Action::Burn, token_ids@) {
                Ok(l) => r == Ok::<u64, NFTError>(balance_of(l, owner)) && final(self).state@ == l,
                Err(e) => r == Err::<u64, NFTError>(NFTError::NFTState(e)) && final(self).state@
                    == old(self).state@,
            },
    {
        match self.state.burn_tokens(owner, token_ids) {
            Ok(balance) => Ok(balance),
            Err(e) => Err(NFTError::NFTState(e)),
        }
    }

    /// Burns tokens on the authority of an approved operator, all or none.
    pub fn burn_for(&mut self, operator: ActorID, token_ids: &[TokenID]) -> (r: Result<(), NFTError>)
        requires
            old(self).valid(),
        ensures
            final(self).valid(),
            final(self).same_services(old(self)),
            match applied(old(self).state@, Authority::Operator(operator), Action::Burn, token_ids@) {
                Ok(l) => r is Ok && final(self).state@ == l,
                Err(e) => r == Err::<(), NFTError>(NFTError::NFTState(e)) && final(self).state@
                    == old(self).state@,
            },
    {
        match self.state.operator_burn_tokens(operator, token_ids) {
            Ok(_) => Ok(()),
            Err(e) => Err(NFTError::NFTState(e)),
        }
    }

    /// Approves `operator` for each of the tokens; all or none, as
    /// `approve_outcome` says. The caller must own each token or be approved
    /// by its owner for all of the owner's tokens. The operator gets an
    /// account if it has none. When an address does not resolve nothing changes.
    pub fn approve(&mut self, caller: &Address, operator: &Address, token_ids: &[TokenID]) -> (r:
        Result<(), NFTError>)
        requires
            old(self).valid(),
        ensures
            final(self).valid(),
            final(self).same_services(old(self)),
            approve_outcome(
                &old(self).msg,
                caller,
                operator,
                old(self).state@,
                token_ids@,
                r,
                final(self).state@,
            ),
    {
        match resolve_both(&self.msg, caller, false, operator, true) {
            Err(e) => Err(NFTError::Messaging(e)),
            Ok((caller_id, operator_id)) => match self.state.approve_for_tokens(
                caller_id,
                operator_id,
                token_ids,
            ) {
                Ok(_) => Ok(()),
                Err(e) => Err(NFTError::NFTState(e)),
            },
        }
    }

    /// Withdraws an approval for each of the tokens, which `caller` must
    /// own, given what the operator's address resolved to, as `revoked_by`
    /// says: an operator without an account was never approved, so the call
    /// succeeds and nothing changes; any other failure to resolve is returned.
    pub fn revoke_resolved(
        &mut self,
        caller: ActorID,
        operator: Result<ActorID, MessagingError>,
        token_ids: &[TokenID],
    ) -> (r: Result<(), NFTError>)
        requires
            old(self).valid(),
        ensures
            final(self).valid(),
            final(self).same_services(old(self)),
            match revoked_by(old(self).state@, caller, operator, token_ids@) {
                Ok(l) => r is Ok && final(self).state@ == l,
                Err(e) => r == Err::<(), NFTError>(e) && final(self).state@ == old(self).state@,
            },
    {
        let operator_id = match operator {
            Ok(id) => id,
            Err(MessagingError::AddressNotResolved(_)) => {
                return Ok(());
            },
            Err(e) => {
                return Err(NFTError::Messaging(e));
            },
        };
        match self.state.revoke_for_tokens(caller, operator_id, token_ids) {
            Ok(_) => Ok(()),
            Err(e) => Err(NFTError::NFTState(e)),
        }
    }

    /// Withdraws the approval of `operator` for each of the tokens; all or
    /// none, as `revoke_outcome` says. The caller must own each token or be
    /// approved by its owner for all of the owner's tokens. Where the
    /// operator has no account the call succeeds and nothing changes.
    pub fn revoke(&mut self, caller: &Address, operator: &Address, token_ids: &[TokenID]) -> (r:
        Result<(), NFTError>)
        requires
            old(self).valid(),
        ensures
            final(self).valid(),
            final(self).same_services(old(self)),
            revoke_outcome(
                &old(self).msg,
                caller,
                operator,
                old(self).state@,
                token_ids@,
                r,
                final(self).state@,
            ),
    {
        let a = self.msg.resolve_id(caller);
        let ghost a0 = a;
        let caller_id = match a {
            Ok(id) => id,
            Err(e) => {
                let r = Err(NFTError::Messaging(e));
                assert(revoke_decided(a0, a0, old(self).state@, token_ids@, r, self.state@));
                return r;
            },
        };
        let found = self.msg.resolve_id(operator);
        let ghost found0 = found;
        let r = self.revoke_resolved(caller_id, found, token_ids);
        assert(revoke_decided(a0, found0, old(self).state@, token_ids@, r, self.state@));
        r
    }

    /// Approves `operator` for every token that `owner` holds now or
    /// later, as `approve_for_owner_outcome` says. The operator gets an
    /// account if it has none. When an address does not resolve nothing changes.
    pub fn approve_for_owner(&mut self, owner: &Address, operator: &Address) -> (r: Result<
        (),
        NFTError,
    >)
        requires
            old(self).valid(),
        ensures
            final(self).valid(),
            final(self).same_services(old(self)),
            approve_for_owner_outcome(
                &old(self).msg,
                owner,
                operator,
                old(self).state@,
                r,
                final(self).state@,
            ),
    {
        match resolve_both(&self.msg, owner, false, operator, true) {
            Err(e) => Err(NFTError::Messaging(e)),
            Ok((owner_id, operator_id)) => {
                self.state.approve_for_owner(owner_id, operator_id);
                Ok(())
            },
        }
    }

    /// Withdraws an account-wide approval, given what the operator's
    /// address resolved to, as `revoked_for_all_by` says: an operator without
    /// an account was never approved, so nothing changes; any other failure to
    /// resolve is returned.
    pub fn revoke_for_all_resolved(
        &mut self,
        owner: ActorID,
        operator: Result<ActorID, MessagingError>,
    ) -> (r: Result<(), NFTError>)
        requires
            old(self).valid(),
        ensures
            final(self).valid(),
            final(self).same_services(old(self)),
            match revoked_for_all_by(old(self).state@, owner, operator) {
                Ok(l) => r is Ok && final(self).state@ == l,
                Err(e) => r == Err::<(), NFTError>(e) && final(self).state@ == old(self).state@,
            },
    {
        match operator {
            Ok(id) => {
                self.state.revoke_for_all(owner, id);
                Ok(())
            },
            Err(MessagingError::AddressNotResolved(_)) => Ok(()),
            Err(e) => Err(NFTError::Messaging(e)),
        }
    }

    /// Withdraws the account-wide approval of `operator`, as
    /// `revoke_for_all_outcome` says. Where the operator has no account the
    /// call succeeds and nothing changes.
    pub fn revoke_for_all(&mut self, owner: &Address, operator: &Address) -> (r: Result<(), NFTError>)
        requires
            old(self).valid(),
        ensures
            final(self).valid(),
            final(self).same_services(old(self)),
            revoke_for_all_outcome(
                &old(self).msg,
                owner,
                operator,
                old(self).state@,
                r,
                final(self).state@,
            ),
    {
        let a = self.msg.resolve_id(owner);
        let ghost a0 = a;
        let owner_id = match a {
            Ok(id) => id,
            Err(e) => {
                let r = Err(NFTError::Messaging(e));
                assert(revoke_for_all_decided(a0, a0, old(self).state@, r, self.state@));
                return r;
            },
        };
        let found = self.msg.resolve_id(operator);
        let ghost found0 = found;
        let r = self.revoke_for_all_resolved(owner_id, found);
        assert(revoke_for_all_decided(a0, found0, old(self).state@, r, self.state@));
        r
    }

    /// Moves the tokens to the account `to` on the authority `who`, all or
    /// none, inside a transaction, and returns the hook that notifies `to`.
    pub fn move_tokens(
        &mut self,
        who: Authority,
        to: ActorID,
        token_ids: &[TokenID],
        operator_data: Vec<u8>,
        token_data: Vec<u8>,
    ) -> (r: Result<ReceiverHook<TransferIntermediate>, NFTError>)
        requires
            old(self).valid(),
        ensures
            final(self).valid(),
            final(self).same_services(old(self)),
            transfer_settled(
                old(self).state@,
                who,
                to,
                token_ids@,
                operator_data@,
                token_data@,
                r,
                final(self).state@,
            ),
    {
        let run = |state: &mut NFTState, store: &BS| -> (out: Result<(), NFTError>)
            requires
                old(state).valid(),
            ensures
                final(state).valid(),
                transfer_applied(old(state)@, who, to, token_ids@, out, final(state)@),
            { in_place(state.apply(who, Action::Transfer { to }, token_ids)) };
        let done = self.transaction(run);
        match done {
            Ok(_) => {
                let actor = match who {
                    Authority::Owner(a) => a,
                    Authority::Operator(a) => a,
                    Authority::Manager(a) => a,
                };
                let notice = TokensReceived {
                    operator: actor,
                    from: actor,
                    to,
                    amount: 0,
                    token_ids: vstd::slice::slice_to_vec(token_ids),
                    operator_data,
                    token_data,
                };
                let intermediate = TransferIntermediate {
                    token_ids: vstd::slice::slice_to_vec(token_ids),
                    from: actor,
                    to,
                    recipient_data: Vec::new(),
                };
                Ok(ReceiverHook::new(notice, intermediate))
            },
            Err(e) => Err(e),
        }
    }

    /// Transfers tokens that `owner` owns to `recipient`, all or none, and
    /// returns the hook that notifies the recipient, as `transfer_outcome`
    /// says. Both get an account if they have none. When an address does not
    /// resolve nothing changes.
    pub fn transfer(
        &mut self,
        owner: &Address,
        recipient: &Address,
        token_ids: &[TokenID],
        operator_data: Vec<u8>,
        token_data: Vec<u8>,
    ) -> (r: Result<ReceiverHook<TransferIntermediate>, NFTError>)
        requires
            old(self).valid(),
        ensures
            final(self).valid(),
            final(self).same_services(old(self)),
            transfer_outcome(
                &old(self).msg,
                owner,
                recipient,
                old(self).state@,
                false,
                token_ids@,
                operator_data@,
                token_data@,
                r,
                final(self).state@,
            ),
    {
        match resolve_both(&self.msg, owner, true, recipient, true) {
            Err(e) => Err(NFTError::Messaging(e)),
            Ok((owner_id, recipient_id)) => self.move_tokens(
                Authority::Owner(owner_id),
                recipient_id,
                token_ids,
                operator_data,
                token_data,
            ),
        }
    }

    /// Transfers tokens for which `operator` is approved to `recipient`,
    /// all or none, and returns the hook that notifies the recipient, as
    /// `transfer_outcome` says. When an address does not resolve nothing changes.
    pub fn transfer_from(
        &mut self,
        operator: &Address,
        recipient: &Address,
        token_ids: &[TokenID],
        operator_data: Vec<u8>,
        token_data: Vec<u8>,
    ) -> (r: Result<ReceiverHook<TransferIntermediate>, NFTError>)
        requires
            old(self).valid(),
        ensures
            final(self).valid(),
            final(self).same_services(old(self)),
            transfer_outcome(
                &old(self).msg,
                operator,
                recipient,
                old(self).state@,
                true,
                token_ids@,
                operator_data@,
                token_data@,
                r,
                final(self).state@,
            ),
    {
        match resolve_both(&self.msg, operator, true, recipient, true) {
            Err(e) => Err(NFTError::Messaging(e)),
            Ok((operator_id, recipient_id)) => self.move_tokens(
                Authority::Operator(operator_id),
                recipient_id,
                token_ids,
                operator_data,
                token_data,
            ),
        }
    }

    /// Builds the result of a transfer after its hook was called, as
    /// `transfer_returned` says. The state is first reconciled with the
    /// root, so that both balances are those of the ledger as it is now,
    /// whatever the receiver did during the call.
    pub fn transfer_return(
        &mut self,
        intermediate: TransferIntermediate,
        prior_state_cid: &ContentAddress,
    ) -> (r: Result<TransferReturn, NFTError>)
        requires
            old(self).valid(),
        ensures
            final(self).valid(),
            final(self).same_services(old(self)),
            transfer_returned(
                &old(self).actor,
                old(self).state@,
                &old(self).bs,
                prior_state_cid@,
                intermediate@,
                r,
                final(self).state@,
            ),
    {
        match self.reload_if_changed(prior_state_cid) {
            Ok(_) => {},
            Err(e) => {
                return Err(e);
            },
        }
        Ok(
            TransferReturn {
                from_balance: self.state.get_balance(intermediate.from),
                to_balance: self.state.get_balance(intermediate.to),
                token_ids: intermediate.token_ids,
                recipient_data: intermediate.recipient_data,
            },
        )
    }

    /// Builds the result of a transfer on an operator's authority after its
    /// hook was called, from the ledger as it is now, as `transfer_returned` says.
    pub fn transfer_from_return(
        &mut self,
        intermediate: TransferIntermediate,
        prior_state_cid: &ContentAddress,
    ) -> (r: Result<TransferReturn, NFTError>)
        requires
            old(self).valid(),
        ensures
            final(self).valid(),
            final(self).same_services(old(self)),
            transfer_returned(
                &old(self).actor,
                old(self).state@,
                &old(self).bs,
                prior_state_cid@,
                intermediate@,
                r,
                final(self).state@,
            ),
    {
        self.transfer_return(intermediate, prior_state_cid)
    }
}

/// What committing leaves, by what the store answers to the flush, where
/// `asked` is what the actor was asked to make its root, if it was asked,
/// with its answer: the error of the flush, after which the actor is not
/// asked; else the actor is asked to make the flushed address its root, and
/// its error is returned, or the address, which is then the root.
pub open spec fn commit_outcome<BS: Blockstore, MSG: Messaging, A: Actor>(
    before: NFT<BS, MSG, A>,
    asked: Option<RootRequest>,
    r: Result<ContentAddress, NFTError>,
    blocks_after: Map<Seq<u8>, Seq<u8>>,
) -> bool {
    exists|flushed: Result<ContentAddress, NFTError>|
        #[trigger] flushed_by(before.bs, before.state@, flushed, blocks_after) && match flushed {
            Err(e) => asked is None && r == Err::<ContentAddress, NFTError>(e),
            Ok(cid) => asked is Some && asked->Some_0.address == cid
                && match asked->Some_0.answer {
                Ok(_) => r == Ok::<ContentAddress, NFTError>(cid),
                Err(e) => r == Err::<ContentAddress, NFTError>(
                    NFTError::Actor(ActorError::RootUpdate(e)),
                ),
            },
        }
}

/// What the second phase of a transfer leaves, where `before` is the
/// handle after the tokens moved and `hook` the hook that is owed. The
/// state is committed as `commit_outcome` says; if that fails, its error is
/// returned and the hook is not called. Else the hook is called once: `msg`
/// answers the notification and the answer is settled. A failure of the hook
/// is returned; the transfer is not undone. Else the result is built as
/// `transfer_returned` says, from the state under the root that the actor
/// answers after the call. `asked` is what the actor was asked to make its
/// root, if it was asked, with its answer.
pub open spec fn transfer_completed<BS: Blockstore, MSG: Messaging, A: Actor>(
    before: NFT<BS, MSG, A>,
    hook: ReceiverHook<TransferIntermediate>,
    asked: Option<RootRequest>,
    r: Result<TransferReturn, NFTError>,
    after: NFT<BS, MSG, A>,
) -> bool {
    exists|committed: Result<ContentAddress, NFTError>|
        #[trigger] commit_outcome(before, asked, committed, after.bs.blocks()) && match committed {
            Err(e) => r == Err::<TransferReturn, NFTError>(e) && after.state@ == before.state@,
            Ok(cid) => exists|
                outcome: Result<Receipt, MessagingError>,
                answer: Result<TransferIntermediate, ReceiverHookError>,
            |
                {
                    &&& hook.answered_by(&before.msg, outcome)
                    &&& #[trigger] settled(outcome, hook.notice().to, hook.intermediate(), answer)
                    &&& match answer {
                        Err(e) => r == Err::<TransferReturn, NFTError>(NFTError::Receiver(e))
                            && after.state@ == before.state@,
                        Ok(t) => transfer_returned(
                            &after.actor,
                            before.state@,
                            &after.bs,
                            cid@,
                            t@,
                            r,
                            after.state@,
                        ),
                    }
                },
        }
}

/// What the second phase of a mint leaves, as `transfer_completed` says
/// for a transfer.
pub open spec fn mint_completed<BS: Blockstore, MSG: Messaging, A: Actor>(
    before: NFT<BS, MSG, A>,
    hook: ReceiverHook<MintIntermediate>,
    asked: Option<RootRequest>,
    r: Result<MintReturn, NFTError>,
    after: NFT<BS, MSG, A>,
) -> bool {
    exists|committed: Result<ContentAddress, NFTError>|
        #[trigger] commit_outcome(before, asked, committed, after.bs.blocks()) && match committed {
            Err(e) => r == Err::<MintReturn, NFTError>(e) && after.state@ == before.state@,
            Ok(cid) => exists|
                outcome: Result<Receipt, MessagingError>,
                answer: Result<MintIntermediate, ReceiverHookError>,
            |
                {
                    &&& hook.answered_by(&before.msg, outcome)
                    &&& #[trigger] settled(outcome, hook.notice().to, hook.intermediate(), answer)
                    &&& match answer {
                        Err(e) => r == Err::<MintReturn, NFTError>(NFTError::Receiver(e))
                            && after.state@ == before.state@,
                        Ok(t) => mint_returned(
                            &after.actor,
                            before.state@,
                            &after.bs,
                            cid@,
                            t@,
                            r,
                            after.state@,
                        ),
                    }
                },
        }
}

impl<BS: Blockstore, MSG: Messaging, A: Actor> NFT<BS, MSG, A> {
    /// Flushes the state and makes it the root of the actor, so that a
    /// receiver that re-enters the actor finds the ledger as it is now, as
    /// `commit_outcome` says. Returns the new root. The state in memory does
    /// not change. The actor is as it was if it was not asked, and else as
    /// its `set_root` left it.
    pub fn commit(&mut self) -> (r: Result<ContentAddress, NFTError>)
        requires
            old(self).valid(),
        ensures
            final(self).valid(),
            final(self).state@ == old(self).state@,
            final(self).msg == old(self).msg,
            exists|asked: Option<RootRequest>|
                {
                    &&& #[trigger] commit_outcome(*old(self), asked, r, final(self).bs.blocks())
                    &&& match asked {
                        None => final(self).actor == old(self).actor,
                        Some(request) => exists|a: &mut A|
                            {
                                &&& *a == old(self).actor
                                &&& #[trigger] call_ensures(
                                    A::set_root,
                                    (a, &request.address),
                                    request.answer,
                                )
                                &&& final(self).actor == *final(a)
                            },
                    }
                },
    {
        let flushed = self.flush();
        let ghost flushed0 = flushed;
        let cid = match flushed {
            Ok(c) => c,
            Err(e) => {
                let r = Err(e);
                assert(commit_outcome(*old(self), None, r, self.bs.blocks()));
                return r;
            },
        };
        let rooted = set_root_of(&mut self.actor, &cid);
        let ghost asked = Some(RootRequest { address: cid, answer: rooted });
        let r = match rooted {
            Ok(_) => Ok(cid),
            Err(e) => Err(NFTError::Actor(ActorError::RootUpdate(e))),
        };
        assert(flushed_by(old(self).bs, old(self).state@, flushed0, self.bs.blocks()));
        assert(commit_outcome(*old(self), asked, r, self.bs.blocks()));
        r
    }

    /// The second phase of a transfer, as `transfer_completed` says:
    /// commits the state, calls the hook exactly once, and builds the result
    /// from the ledger as it is after the call, whatever the receiver did to
    /// it. A failure of the hook does not undo the transfer. The actor is as
    /// it was if it was not asked to set the root, and else as its
    /// `set_root` left it.
    pub fn complete_transfer(&mut self, hook: ReceiverHook<TransferIntermediate>) -> (r: Result<
        TransferReturn,
        NFTError,
    >)
        requires
            old(self).valid(),
            hook.valid(),
            hook.pending(),
        ensures
            final(self).valid(),
            final(self).msg == old(self).msg,
            exists|asked: Option<RootRequest>|
                {
                    &&& #[trigger] transfer_completed(*old(self), hook, asked, r, *final(self))
                    &&& match asked {
                        None => final(self).actor == old(self).actor,
                        Some(request) => exists|a: &mut A|
                            {
                                &&& *a == old(self).actor
                                &&& #[trigger] call_ensures(
                                    A::set_root,
                                    (a, &request.address),
                                    request.answer,
                                )
                                &&& final(self).actor == *final(a)
                            },
                    }
                },
    {
        let mut owed = hook;
        let committed = self.commit();
        let ghost committed0 = committed;
        let ghost asked = choose|asked: Option<RootRequest>|
            {
                &&& #[trigger] commit_outcome(*old(self), asked, committed0, self.bs.blocks())
                &&& match asked {
                    None => self.actor == old(self).actor,
                    Some(request) => exists|a: &mut A|
                        {
                            &&& *a == old(self).actor
                            &&& #[trigger] call_ensures(
                                A::set_root,
                                (a, &request.address),
                                request.answer,
                            )
                            &&& self.actor == *final(a)
                        },
                }
            };
        let cid = match committed {
            Ok(c) => c,
            Err(e) => {
                let r = Err(e);
                assert(transfer_completed(*old(self), hook, asked, r, *self));
                return r;
            },
        };
        let answer = owed.call(&self.msg);
        let r = match answer {
            Ok(t) => self.transfer_return(t, &cid),
            Err(e) => Err(NFTError::Receiver(e)),
        };
        assert(commit_outcome(*old(self), asked, committed0, self.bs.blocks()));
        assert(transfer_completed(*old(self), hook, asked, r, *self));
        r
    }

    /// The second phase of a mint, as `mint_completed` says.
    pub fn complete_mint(&mut self, hook: ReceiverHook<MintIntermediate>) -> (r: Result<
        MintReturn,
        NFTError,
    >)
        requires
            old(self).valid(),
            hook.valid(),
            hook.pending(),
        ensures
            final(self).valid(),
            final(self).msg == old(self).msg,
            exists|asked: Option<RootRequest>|
                {
                    &&& #[trigger] mint_completed(*old(self), hook, asked, r, *final(self))
                    &&& match asked {
                        None => final(self).actor == old(self).actor,
                        Some(request) => exists|a: &mut A|
                            {
                                &&& *a == old(self).actor
                                &&& #[trigger] call_ensures(
                                    A::set_root,
                                    (a, &request.address),
                                    request.answer,
                                )
                                &&& final(self).actor == *final(a)
                            },
                    }
                },
    {
        let mut owed = hook;
        let committed = self.commit();
        let ghost committed0 = committed;
        let ghost asked = choose|asked: Option<RootRequest>|
            {
                &&& #[trigger] commit_outcome(*old(self), asked, committed0, self.bs.blocks())
                &&& match asked {
                    None => self.actor == old(self).actor,
                    Some(request) => exists|a: &mut A|
                        {
                            &&& *a == old(self).actor
                            &&& #[trigger] call_ensures(
                                A::set_root,
                                (a, &request.address),
                                request.answer,
                            )
                            &&& self.actor == *final(a)
                        },
                }
            };
        let cid = match committed {
            Ok(c) => c,
            Err(e) => {
                let r = Err(e);
                assert(mint_completed(*old(self), hook, asked, r, *self));
                return r;
            },
        };
        let answer = owed.call(&self.msg);
        let r = match answer {
            Ok(t) => self.mint_return(t, &cid),
            Err(e) => Err(NFTError::Receiver(e)),
        };
        assert(commit_outcome(*old(self), asked, committed0, self.bs.blocks()));
        assert(mint_completed(*old(self), hook, asked, r, *self));
        r
    }
}

} // verus!
