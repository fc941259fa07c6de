//! The operations of a fungible token on addresses: each resolves the
//! addresses involved, makes the state transition, and, where tokens arrive
//! at an account, returns the receiver hook that is owed to it.

use crate::address::{ActorID, Address};
use crate::messaging::{
    answered, both_answered, resolve, resolve_both, Messaging, MessagingError, TokensReceived,
    TokensReceivedView,
};
use crate::receiver::{ReceiverHook, RecipientData};
use crate::token_state::{
    allowance_between, allowance_increased, allowance_used, burned_amount, minted_amount,
    operator_burned, operator_transferred, raised, token_balance, transferred_amount,
    with_allowance, TokenLedger, TokenState, TokenStateError,
};
use vstd::prelude::*;

verus! {

/// Why an operation of the token failed.
#[derive(Debug)]
pub enum TokenError {
    /// The ledger state refused the transition.
    TokenState(TokenStateError),
    /// An address could not be resolved.
    Messaging(MessagingError),
}

/// What a transfer or a mint keeps across the call of its hook.
#[derive(Debug)]
pub struct TransferIntermediate {
    /// The account on whose authority the tokens moved.
    pub operator: ActorID,
    /// The account that gave the tokens (the operator itself for a mint).
    pub from: ActorID,
    /// The account that received the tokens.
    pub to: ActorID,
    /// The data that the receiver hook returned.
    pub recipient_data: Vec<u8>,
}

/// The model of a `TransferIntermediate`.
pub ghost struct TransferIntermediateView {
    pub operator: ActorID,
    pub from: ActorID,
    pub to: ActorID,
    pub recipient_data: Seq<u8>,
}

impl View for TransferIntermediate {
    type V = TransferIntermediateView;

    open spec fn view(&self) -> TransferIntermediateView {
        TransferIntermediateView {
            operator: self.operator,
            from: self.from,
            to: self.to,
            recipient_data: self.recipient_data@,
        }
    }
}

impl RecipientData for TransferIntermediate {
    open spec fn answered(v: TransferIntermediateView, data: Seq<u8>) -> TransferIntermediateView {
        TransferIntermediateView { operator: v.operator, from: v.from, to: v.to, recipient_data: data }
    }

    fn set_recipient_data(&mut self, data: Vec<u8>) {
        self.recipient_data = data;
    }
}

/// What a mint returns once its hook has been called.
#[derive(Debug)]
pub struct MintReturn {
    /// The balance of the receiving account, as it is now.
    pub balance: u128,
    /// The supply, as it is now.
    pub supply: u128,
    /// The data that the receiver hook returned.
    pub recipient_data: Vec<u8>,
}

/// What a transfer returns once its hook has been called.
#[derive(Debug)]
pub struct TransferReturn {
    /// The balance of the giving account, as it is now.
    pub from_balance: u128,
    /// The balance of the receiving account, as it is now.
    pub to_balance: u128,
    /// The data that the receiver hook returned.
    pub recipient_data: Vec<u8>,
}

/// What a transfer on an allowance returns once its hook has been called.
#[derive(Debug)]
pub struct TransferFromReturn {
    /// The balance of the giving account, as it is now.
    pub from_balance: u128,
    /// The balance of the receiving account, as it is now.
    pub to_balance: u128,
    /// What the operator may still spend of the tokens of the giving account.
    pub allowance: u128,
    /// The data that the receiver hook returned.
    pub recipient_data: Vec<u8>,
}

/// What a burn returns.
#[derive(Clone, Copy, Debug, PartialEq, Eq)]
pub struct BurnReturn {
    /// The balance that is left.
    pub balance: u128,
}

/// What a burn on an allowance returns.
#[derive(Clone, Copy, Debug, PartialEq, Eq)]
pub struct BurnFromReturn {
    /// The balance that is left.
    pub balance: u128,
    /// The allowance that is left.
    pub allowance: u128,
}

/// The parameters of `Transfer`.
#[derive(Debug)]
pub struct TransferParams {
    pub to: Address,
    pub amount: u128,
    pub operator_data: Vec<u8>,
}

/// The parameters of `TransferFrom`.
#[derive(Debug)]
pub struct TransferFromParams {
    pub from: Address,
    pub to: Address,
    pub amount: u128,
    pub operator_data: Vec<u8>,
}

/// The parameters of `IncreaseAllowance`.
#[derive(Debug)]
pub struct IncreaseAllowanceParams {
    pub operator: Address,
    pub increase: u128,
}

/// The parameters of `DecreaseAllowance`.
#[derive(Debug)]
pub struct DecreaseAllowanceParams {
    pub operator: Address,
    pub decrease: u128,
}

/// The parameters of `RevokeAllowance`.
#[derive(Debug)]
pub struct RevokeAllowanceParams {
    pub operator: Address,
}

/// The parameters of `Allowance`.
#[derive(Debug)]
pub struct GetAllowanceParams {
    pub owner: Address,
    pub operator: Address,
}

/// The parameters of `Burn`.
#[derive(Debug)]
pub struct BurnParams {
    pub amount: u128,
}

/// The parameters of `BurnFrom`.
#[derive(Debug)]
pub struct BurnFromParams {
    pub owner: Address,
    pub amount: u128,
}

/// What an operation that moves tokens to an account leaves, given the
/// transition of the ledger: on success the new ledger and a pending hook
/// that tells `to` of the amount; on failure the error of the state and the
/// ledger as it was.
pub open spec fn arrival_settled(
    before: TokenLedger,
    transition: Result<TokenLedger, TokenStateError>,
    operator: ActorID,
    from: ActorID,
    to: ActorID,
    amount: u128,
    operator_data: Seq<u8>,
    token_data: Seq<u8>,
    r: Result<ReceiverHook<TransferIntermediate>, TokenError>,
    after: TokenLedger,
) -> bool {
    match transition {
        Ok(l) => {
            &&& r is Ok
            &&& after == l
            &&& r->Ok_0.valid()
            &&& r->Ok_0.pending()
            &&& r->Ok_0.intermediate() == TransferIntermediateView {
                operator,
                from,
                to,
                recipient_data: Seq::empty(),
            }
            &&& r->Ok_0.notice() == TokensReceivedView {
                operator,
                from,
                to,
                amount,
                token_ids: Seq::empty(),
                operator_data,
                token_data,
            }
        },
        Err(e) => r is Err && r->Err_0 == TokenError::TokenState(e) && after == before,
    }
}

fn arrival(
    done: Result<(), TokenStateError>,
    operator: ActorID,
    from: ActorID,
    to: ActorID,
    amount: u128,
    operator_data: Vec<u8>,
    token_data: Vec<u8>,
) -> (r: Result<ReceiverHook<TransferIntermediate>, TokenError>)
    ensures
        match done {
            Ok(_) => {
                &&& r is Ok
                &&& r->Ok_0.valid()
                &&& r->Ok_0.pending()
                &&& r->Ok_0.intermediate() == TransferIntermediateView {
                    operator,
                    from,
                    to,
                    recipient_data: Seq::empty(),
                }
                &&& r->Ok_0.notice() == TokensReceivedView {
                    operator,
                    from,
                    to,
                    amount,
                    token_ids: Seq::empty(),
                    operator_data: operator_data@,
                    token_data: token_data@,
                }
            },
            Err(e) => r is Err && r->Err_0 == TokenError::TokenState(e),
        },
{
    match done {
        Ok(_) => {
            let notice = TokensReceived {
                operator,
                from,
                to,
                amount,
                token_ids: Vec::new(),
                operator_data,
                token_data,
            };
            let intermediate = TransferIntermediate { operator, from, to, recipient_data: Vec::new() };
            Ok(ReceiverHook::new(notice, intermediate))
        },
        Err(e) => Err(TokenError::TokenState(e)),
    }
}

/// The number of tokens in circulation.
pub fn total_supply(state: &TokenState) -> (r: u128)
    ensures
        r == state@.supply,
{
    state.total_supply()
}

/// The balance to report for an address, by what the address resolved to:
/// the balance of the account; zero for an address without an account; any
/// other error as it is.
pub open spec fn reported_token_balance(l: TokenLedger, resolved: Result<ActorID, MessagingError>) -> Result<
    u128,
    TokenError,
> {
    match resolved {
        Ok(owner) => Ok(token_balance(l, owner)),
        Err(MessagingError::AddressNotResolved(_)) => Ok(0),
        Err(e) => Err(TokenError::Messaging(e)),
    }
}

/// The balance is the one to report for what `msg` resolved the address to.
pub open spec fn balance_reported<M: Messaging>(
    msg: &M,
    address: &Address,
    l: TokenLedger,
    r: Result<u128, TokenError>,
) -> bool {
    exists|resolved: Result<ActorID, MessagingError>|
        call_ensures(M::resolve_id, (msg, address), resolved) && r
            == #[trigger] reported_token_balance(l, resolved)
}

/// The balance to report for an address, given what it resolved to.
pub fn balance_for(state: &TokenState, resolved: Result<ActorID, MessagingError>) -> (r: Result<
    u128,
    TokenError,
>)
    requires
        state.valid(),
    ensures
        r == reported_token_balance(state@, resolved),
{
    match resolved {
        Ok(owner) => Ok(state.get_balance(owner)),
        Err(MessagingError::AddressNotResolved(_)) => Ok(0),
        Err(e) => Err(TokenError::Messaging(e)),
    }
}

/// The balance of the account behind `address`; zero where the address has no account.
pub fn balance_of<M: Messaging>(state: &TokenState, msg: &M, address: &Address) -> (r: Result<
    u128,
    TokenError,
>)
    requires
        state.valid(),
    ensures
        balance_reported(msg, address, state@, r),
{
    let resolved = msg.resolve_id(address);
    let ghost copy = resolved;
    let r = balance_for(state, resolved);
    assert(r == reported_token_balance(state@, copy));
    r
}

/// The allowance to report, by what the two addresses resolved to: zero
/// where either has no account.
pub open spec fn reported_allowance(
    l: TokenLedger,
    owner: Result<ActorID, MessagingError>,
    operator: Result<ActorID, MessagingError>,
) -> Result<u128, TokenError> {
    match owner {
        Err(MessagingError::AddressNotResolved(_)) => Ok(0),
        Err(e) => Err(TokenError::Messaging(e)),
        Ok(owner_id) => match operator {
            Err(MessagingError::AddressNotResolved(_)) => Ok(0),
            Err(e) => Err(TokenError::Messaging(e)),
            Ok(operator_id) => Ok(allowance_between(l, owner_id, operator_id)),
        },
    }
}

/// The allowance is the one to report for what `msg` resolved the owner
/// to, and, where the owner has an account, for what it resolved the operator to.
pub open spec fn allowance_reported<M: Messaging>(
    msg: &M,
    owner: &Address,
    operator: &Address,
    l: TokenLedger,
    r: Result<u128, TokenError>,
) -> bool {
    exists|a: Result<ActorID, MessagingError>, b: Result<ActorID, MessagingError>|
        {
            &&& call_ensures(M::resolve_id, (msg, owner), a)
            &&& a is Ok ==> call_ensures(M::resolve_id, (msg, operator), b)
            &&& r == #[trigger] reported_allowance(l, a, b)
        }
}

/// What `operator` may still spend of the tokens of `owner`; zero where
/// either address has no account or no allowance is set.
pub fn allowance<M: Messaging>(state: &TokenState, msg: &M, owner: &Address, operator: &Address) -> (r:
    Result<u128, TokenError>)
    requires
        state.valid(),
    ensures
        allowance_reported(msg, owner, operator, state@, r),
{
    let a = msg.resolve_id(owner);
    let ghost a0 = a;
    let owner_id = match a {
        Ok(id) => id,
        Err(MessagingError::AddressNotResolved(x)) => {
            assert(reported_allowance(state@, a0, a0) == Ok::<u128, TokenError>(0));
            return Ok(0);
        },
        Err(e) => {
            assert(reported_allowance(state@, a0, a0) == Err::<u128, TokenError>(
                TokenError::Messaging(e),
            ));
            return Err(TokenError::Messaging(e));
        },
    };
    let b = msg.resolve_id(operator);
    let ghost b0 = b;
    match b {
        Ok(operator_id) => {
            let x = state.get_allowance_between(owner_id, operator_id);
            assert(reported_allowance(state@, a0, b0) == Ok::<u128, TokenError>(x));
            Ok(x)
        },
        Err(MessagingError::AddressNotResolved(y)) => {
            assert(reported_allowance(state@, a0, b0) == Ok::<u128, TokenError>(0));
            Ok(0)
        },
        Err(e) => {
            assert(reported_allowance(state@, a0, b0) == Err::<u128, TokenError>(
                TokenError::Messaging(e),
            ));
            Err(TokenError::Messaging(e))
        },
    }
}

/// Mints `amount` to the account `to` on the authority of `operator` and
/// returns the hook that notifies `to`.
pub fn mint_resolved(
    state: &mut TokenState,
    granularity: u64,
    operator: ActorID,
    to: ActorID,
    amount: u128,
    operator_data: Vec<u8>,
    token_data: Vec<u8>,
) -> (r: Result<ReceiverHook<TransferIntermediate>, TokenError>)
    requires
        old(state).valid(),
    ensures
        final(state).valid(),
        arrival_settled(
            old(state)@,
            minted_amount(old(state)@, granularity, to, amount),
            operator,
            operator,
            to,
            amount,
            operator_data@,
            token_data@,
            r,
            final(state)@,
        ),
{
    let done = state.mint(granularity, to, amount);
    arrival(done, operator, operator, to, amount, operator_data, token_data)
}

/// What a mint leaves, by what `msg` answers for the two addresses, each
/// of which gets an account if it has none: the error of messaging, and
/// nothing changed; else what `arrival_settled` says.
pub open spec fn mint_outcome<M: Messaging>(
    msg: &M,
    operator: &Address,
    initial_owner: &Address,
    before: TokenLedger,
    granularity: u64,
    amount: u128,
    operator_data: Seq<u8>,
    token_data: Seq<u8>,
    r: Result<ReceiverHook<TransferIntermediate>, TokenError>,
    after: TokenLedger,
) -> bool {
    exists|accounts: Result<(ActorID, ActorID), MessagingError>|
        #[trigger] both_answered(msg, operator, true, initial_owner, true, accounts)
            && match accounts {
            Err(e) => r is Err && r->Err_0 == TokenError::Messaging(e) && after == before,
            Ok(pair) => arrival_settled(
                before,
                minted_amount(before, granularity, pair.1, amount),
                pair.0,
                pair.0,
                pair.1,
                amount,
                operator_data,
                token_data,
                r,
                after,
            ),
        }
}

/// Mints `amount` to `initial_owner` and returns the hook that notifies
/// it, as `mint_outcome` says. Both addresses get an account if they have
/// none. When an address does not resolve nothing changes.
pub fn mint<M: Messaging>(
    state: &mut TokenState,
    msg: &M,
    granularity: u64,
    operator: &Address,
    initial_owner: &Address,
    amount: u128,
    operator_data: Vec<u8>,
    token_data: Vec<u8>,
) -> (r: Result<ReceiverHook<TransferIntermediate>, TokenError>)
    requires
        old(state).valid(),
    ensures
        final(state).valid(),
        mint_outcome(
            msg,
            operator,
            initial_owner,
            old(state)@,
            granularity,
            amount,
            operator_data@,
            token_data@,
            r,
            final(state)@,
        ),
{
    match resolve_both(msg, operator, true, initial_owner, true) {
        Err(e) => Err(TokenError::Messaging(e)),
        Ok((operator_id, to)) => mint_resolved(
            state,
            granularity,
            operator_id,
            to,
            amount,
            operator_data,
            token_data,
        ),
    }
}

/// Moves `amount` from the account `from` to the account `to` and returns
/// the hook that notifies `to`.
pub fn transfer_resolved(
    state: &mut TokenState,
    granularity: u64,
    from: ActorID,
    to: ActorID,
    amount: u128,
    operator_data: Vec<u8>,
    token_data: Vec<u8>,
) -> (r: Result<ReceiverHook<TransferIntermediate>, TokenError>)
    requires
        old(state).valid(),
    ensures
        final(state).valid(),
        arrival_settled(
            old(state)@,
            transferred_amount(old(state)@, granularity, from, to, amount),
            from,
            from,
            to,
            amount,
            operator_data@,
            token_data@,
            r,
            final(state)@,
        ),
{
    let done = state.transfer(granularity, from, to, amount);
    arrival(done, from, from, to, amount, operator_data, token_data)
}

/// What a transfer leaves, by what `msg` answers for the two addresses,
/// each of which gets an account if it has none: the error of messaging,
/// and nothing changed; else what `arrival_settled` says.
pub open spec fn transfer_outcome<M: Messaging>(
    msg: &M,
    from: &Address,
    to: &Address,
    before: TokenLedger,
    granularity: u64,
    amount: u128,
    operator_data: Seq<u8>,
    token_data: Seq<u8>,
    r: Result<ReceiverHook<TransferIntermediate>, TokenError>,
    after: TokenLedger,
) -> bool {
    exists|accounts: Result<(ActorID, ActorID), MessagingError>|
        #[trigger] both_answered(msg, from, true, to, true, accounts) && match accounts {
            Err(e) => r is Err && r->Err_0 == TokenError::Messaging(e) && after == before,
            Ok(pair) => arrival_settled(
                before,
                transferred_amount(before, granularity, pair.0, pair.1, amount),
                pair.0,
                pair.0,
                pair.1,
                amount,
                operator_data,
                token_data,
                r,
                after,
            ),
        }
}

/// Moves `amount` from `from` to `to` and returns the hook that notifies
/// the receiver, as `transfer_outcome` says. Both addresses get an account
/// if they have none. When an address does not resolve nothing changes.
pub fn transfer<M: Messaging>(
    state: &mut TokenState,
    msg: &M,
    granularity: u64,
    from: &Address,
    to: &Address,
    amount: u128,
    operator_data: Vec<u8>,
    token_data: Vec<u8>,
) -> (r: Result<ReceiverHook<TransferIntermediate>, TokenError>)
    requires
        old(state).valid(),
    ensures
        final(state).valid(),
        transfer_outcome(
            msg,
            from,
            to,
            old(state)@,
            granularity,
            amount,
            operator_data@,
            token_data@,
            r,
            final(state)@,
        ),
{
    match resolve_both(msg, from, true, to, true) {
        Err(e) => Err(TokenError::Messaging(e)),
        Ok((from_id, to_id)) => transfer_resolved(
            state,
            granularity,
            from_id,
            to_id,
            amount,
            operator_data,
            token_data,
        ),
    }
}

/// Moves `amount` from the account `from` to the account `to` on the
/// allowance of `operator` and returns the hook that notifies `to`.
pub fn transfer_from_resolved(
    state: &mut TokenState,
    granularity: u64,
    operator: ActorID,
    from: ActorID,
    to: ActorID,
    amount: u128,
    operator_data: Vec<u8>,
    token_data: Vec<u8>,
) -> (r: Result<ReceiverHook<TransferIntermediate>, TokenError>)
    requires
        old(state).valid(),
    ensures
        final(state).valid(),
        arrival_settled(
            old(state)@,
            operator_transferred(old(state)@, granularity, operator, from, to, amount),
            operator,
            from,
            to,
            amount,
            operator_data@,
            token_data@,
            r,
            final(state)@,
        ),
{
    let done = state.operator_transfer(granularity, operator, from, to, amount);
    arrival(done, operator, from, to, amount, operator_data, token_data)
}

/// What a transfer on an allowance leaves, given the answers for the
/// operator and the giving account, and for the receiver: the first error,
/// and nothing changed; else what `arrival_settled` says.
pub open spec fn transfer_from_decided(
    accounts: Result<(ActorID, ActorID), MessagingError>,
    receiver: Result<ActorID, MessagingError>,
    before: TokenLedger,
    granularity: u64,
    amount: u128,
    operator_data: Seq<u8>,
    token_data: Seq<u8>,
    r: Result<ReceiverHook<TransferIntermediate>, TokenError>,
    after: TokenLedger,
) -> bool {
    match accounts {
        Err(e) => r is Err && r->Err_0 == TokenError::Messaging(e) && after == before,
        Ok(pair) => match receiver {
            Err(e) => r is Err && r->Err_0 == TokenError::Messaging(e) && after == before,
            Ok(to) => arrival_settled(
                before,
                operator_transferred(before, granularity, pair.0, pair.1, to, amount),
                pair.0,
                pair.1,
                to,
                amount,
                operator_data,
                token_data,
                r,
                after,
            ),
        },
    }
}

/// What a transfer on an allowance leaves, by what `msg` answers for the
/// operator and the giving account, which must have accounts, and then for
/// the receiver, which gets one if it has none.
pub open spec fn transfer_from_outcome<M: Messaging>(
    msg: &M,
    operator: &Address,
    from: &Address,
    to: &Address,
    before: TokenLedger,
    granularity: u64,
    amount: u128,
    operator_data: Seq<u8>,
    token_data: Seq<u8>,
    r: Result<ReceiverHook<TransferIntermediate>, TokenError>,
    after: TokenLedger,
) -> bool {
    exists|accounts: Result<(ActorID, ActorID), MessagingError>, receiver: Result<ActorID, MessagingError>|
        {
            &&& both_answered(msg, operator, false, from, false, accounts)
            &&& accounts is Ok ==> answered(msg, to, true, receiver)
            &&& #[trigger] transfer_from_decided(
                accounts,
                receiver,
                before,
                granularity,
                amount,
                operator_data,
                token_data,
                r,
                after,
            )
        }
}

/// Moves `amount` from `from` to `to` on the allowance of `operator` and
/// returns the hook that notifies the receiver, as `transfer_from_outcome`
/// says. The operator and the giving account must have accounts; the
/// receiver gets one if it has none. When an address does not resolve
/// nothing changes.
pub fn transfer_from<M: Messaging>(
    state: &mut TokenState,
    msg: &M,
    granularity: u64,
    operator: &Address,
    from: &Address,
    to: &Address,
    amount: u128,
    operator_data: Vec<u8>,
    token_data: Vec<u8>,
) -> (r: Result<ReceiverHook<TransferIntermediate>, TokenError>)
    requires
        old(state).valid(),
    ensures
        final(state).valid(),
        transfer_from_outcome(
            msg,
            operator,
            from,
            to,
            old(state)@,
            granularity,
            amount,
            operator_data@,
            token_data@,
            r,
            final(state)@,
        ),
{
    let accounts = resolve_both(msg, operator, false, from, false);
    let ghost accounts0 = accounts;
    let (operator_id, from_id) = match accounts {
        Ok(pair) => pair,
        Err(e) => {
            let r = Err(TokenError::Messaging(e));
            assert(transfer_from_decided(
                accounts0,
                Err::<ActorID, MessagingError>(e),
                old(state)@,
                granularity,
                amount,
                operator_data@,
                token_data@,
                r,
                state@,
            ));
            return r;
        },
    };
    let receiver = resolve(msg, to, true);
    let ghost receiver0 = receiver;
    let ghost sent_operator_data = operator_data@;
    let ghost sent_token_data = token_data@;
    let r = match receiver {
        Err(e) => Err(TokenError::Messaging(e)),
        Ok(to_id) => transfer_from_resolved(
            state,
            granularity,
            operator_id,
            from_id,
            to_id,
            amount,
            operator_data,
            token_data,
        ),
    };
    assert(transfer_from_decided(
        accounts0,
        receiver0,
        old(state)@,
        granularity,
        amount,
        sent_operator_data,
        sent_token_data,
        r,
        state@,
    ));
    r
}

/// Builds the result of a mint after its hook was called, from the ledger as it is now.
pub fn mint_return(state: &TokenState, intermediate: TransferIntermediate) -> (r: MintReturn)
    requires
        state.valid(),
    ensures
        r.balance == token_balance(state@, intermediate.to),
        r.supply == state@.supply,
        r.recipient_data@ == intermediate.recipient_data@,
{
    MintReturn {
        balance: state.get_balance(intermediate.to),
        supply: state.total_supply(),
        recipient_data: intermediate.recipient_data,
    }
}

/// Builds the result of a transfer after its hook was called, from the ledger as it is now.
pub fn transfer_return(state: &TokenState, intermediate: TransferIntermediate) -> (r: TransferReturn)
    requires
        state.valid(),
    ensures
        r.from_balance == token_balance(state@, intermediate.from),
        r.to_balance == token_balance(state@, intermediate.to),
        r.recipient_data@ == intermediate.recipient_data@,
{
    TransferReturn {
        from_balance: state.get_balance(intermediate.from),
        to_balance: state.get_balance(intermediate.to),
        recipient_data: intermediate.recipient_data,
    }
}

/// Builds the result of a transfer on an allowance after its hook was
/// called, from the ledger as it is now.
pub fn transfer_from_return(state: &TokenState, intermediate: TransferIntermediate) -> (r:
    TransferFromReturn)
    requires
        state.valid(),
    ensures
        r.from_balance == token_balance(state@, intermediate.from),
        r.to_balance == token_balance(state@, intermediate.to),
        r.allowance == allowance_between(state@, intermediate.from, intermediate.operator),
        r.recipient_data@ == intermediate.recipient_data@,
{
    TransferFromReturn {
        from_balance: state.get_balance(intermediate.from),
        to_balance: state.get_balance(intermediate.to),
        allowance: state.get_allowance_between(intermediate.from, intermediate.operator),
        recipient_data: intermediate.recipient_data,
    }
}

/// What a burn leaves, by what `msg` answers for the owner, which must
/// have an account: the error of messaging, and nothing changed; else the
/// ledger after the burn and the balance that is left, or the refusal of
/// the state and nothing changed.
pub open spec fn burn_outcome<M: Messaging>(
    msg: &M,
    owner: &Address,
    before: TokenLedger,
    granularity: u64,
    amount: u128,
    r: Result<BurnReturn, TokenError>,
    after: TokenLedger,
) -> bool {
    exists|account: Result<ActorID, MessagingError>|
        #[trigger] answered(msg, owner, false, account) && match account {
            Err(e) => r == Err::<BurnReturn, TokenError>(TokenError::Messaging(e)) && after
                == before,
            Ok(owner_id) => match burned_amount(before, granularity, owner_id, amount) {
                Ok(l) => after == l && r == Ok::<BurnReturn, TokenError>(
                    BurnReturn { balance: token_balance(l, owner_id) },
                ),
                Err(e) => r == Err::<BurnReturn, TokenError>(TokenError::TokenState(e)) && after
                    == before,
            },
        }
}

/// Burns `amount` of the tokens of `owner`, as `burn_outcome` says. When
/// the address does not resolve nothing changes.
pub fn burn<M: Messaging>(
    state: &mut TokenState,
    msg: &M,
    granularity: u64,
    owner: &Address,
    amount: u128,
) -> (r: Result<BurnReturn, TokenError>)
    requires
        old(state).valid(),
    ensures
        final(state).valid(),
        burn_outcome(msg, owner, old(state)@, granularity, amount, r, final(state)@),
{
    match resolve(msg, owner, false) {
        Err(e) => Err(TokenError::Messaging(e)),
        Ok(owner_id) => match state.burn(granularity, owner_id, amount) {
            Ok(_) => Ok(BurnReturn { balance: state.get_balance(owner_id) }),
            Err(e) => Err(TokenError::TokenState(e)),
        },
    }
}

/// What a burn on an allowance leaves, as `burn_outcome` says for a
/// burn, by what `msg` answers for the operator and the owner, which must
/// have accounts.
pub open spec fn burn_from_outcome<M: Messaging>(
    msg: &M,
    operator: &Address,
    owner: &Address,
    before: TokenLedger,
    granularity: u64,
    amount: u128,
    r: Result<BurnFromReturn, TokenError>,
    after: TokenLedger,
) -> bool {
    exists|accounts: Result<(ActorID, ActorID), MessagingError>|
        #[trigger] both_answered(msg, operator, false, owner, false, accounts) && match accounts {
            Err(e) => r == Err::<BurnFromReturn, TokenError>(TokenError::Messaging(e)) && after
                == before,
            Ok(pair) => match operator_burned(before, granularity, pair.0, pair.1, amount) {
                Ok(l) => after == l && r == Ok::<BurnFromReturn, TokenError>(
                    BurnFromReturn {
                        balance: token_balance(l, pair.1),
                        allowance: allowance_between(l, pair.1, pair.0),
                    },
                ),
                Err(e) => r == Err::<BurnFromReturn, TokenError>(TokenError::TokenState(e))
                    && after == before,
            },
        }
}

/// Burns `amount` of the tokens of `owner` on the allowance of
/// `operator`, as `burn_from_outcome` says. When an address does not
/// resolve nothing changes.
pub fn burn_from<M: Messaging>(
    state: &mut TokenState,
    msg: &M,
    granularity: u64,
    operator: &Address,
    owner: &Address,
    amount: u128,
) -> (r: Result<BurnFromReturn, TokenError>)
    requires
        old(state).valid(),
    ensures
        final(state).valid(),
        burn_from_outcome(msg, operator, owner, old(state)@, granularity, amount, r, final(state)@),
{
    match resolve_both(msg, operator, false, owner, false) {
        Err(e) => Err(TokenError::Messaging(e)),
        Ok((operator_id, owner_id)) => match state.operator_burn(
            granularity,
            operator_id,
            owner_id,
            amount,
        ) {
            Ok(_) => Ok(
                BurnFromReturn {
                    balance: state.get_balance(owner_id),
                    allowance: state.get_allowance_between(owner_id, operator_id),
                },
            ),
            Err(e) => Err(TokenError::TokenState(e)),
        },
    }
}

/// What raising an allowance leaves, by what `msg` answers for the two
/// addresses, each of which gets an account if it has none: the error of
/// messaging, and nothing changed; else the ledger with the allowance
/// raised, and the new allowance.
pub open spec fn increase_outcome<M: Messaging>(
    msg: &M,
    owner: &Address,
    operator: &Address,
    before: TokenLedger,
    delta: u128,
    r: Result<u128, TokenError>,
    after: TokenLedger,
) -> bool {
    exists|accounts: Result<(ActorID, ActorID), MessagingError>|
        #[trigger] both_answered(msg, owner, true, operator, true, accounts) && match accounts {
            Err(e) => r == Err::<u128, TokenError>(TokenError::Messaging(e)) && after == before,
            Ok(pair) => {
                &&& after == allowance_increased(before, pair.0, pair.1, delta)
                &&& r == Ok::<u128, TokenError>(
                    raised(allowance_between(before, pair.0, pair.1), delta),
                )
            },
        }
}

/// Raises what `operator` may spend of the tokens of `owner` by `delta`
/// and returns the new allowance, as `increase_outcome` says. Both
/// addresses get an account if they have none. When an address does not
/// resolve nothing changes.
pub fn increase_allowance<M: Messaging>(
    state: &mut TokenState,
    msg: &M,
    owner: &Address,
    operator: &Address,
    delta: u128,
) -> (r: Result<u128, TokenError>)
    requires
        old(state).valid(),
    ensures
        final(state).valid(),
        increase_outcome(msg, owner, operator, old(state)@, delta, r, final(state)@),
{
    match resolve_both(msg, owner, true, operator, true) {
        Err(e) => Err(TokenError::Messaging(e)),
        Ok((owner_id, operator_id)) => Ok(state.increase_allowance(owner_id, operator_id, delta)),
    }
}

/// What lowering an allowance leaves, by what `msg` answers for the two
/// addresses, each of which gets an account if it has none: the error of
/// messaging, and nothing changed; else the ledger with the allowance
/// lowered and the new allowance, or `InsufficientAllowance` and nothing
/// changed.
pub open spec fn decrease_outcome<M: Messaging>(
    msg: &M,
    owner: &Address,
    operator: &Address,
    before: TokenLedger,
    delta: u128,
    r: Result<u128, TokenError>,
    after: TokenLedger,
) -> bool {
    exists|accounts: Result<(ActorID, ActorID), MessagingError>|
        #[trigger] both_answered(msg, owner, true, operator, true, accounts) && match accounts {
            Err(e) => r == Err::<u128, TokenError>(TokenError::Messaging(e)) && after == before,
            Ok(pair) => match allowance_used(before, pair.0, pair.1, delta) {
                Ok(l) => after == l && r == Ok::<u128, TokenError>(
                    (allowance_between(before, pair.0, pair.1) - delta) as u128,
                ),
                Err(e) => r == Err::<u128, TokenError>(TokenError::TokenState(e)) && after
                    == before,
            },
        }
}

/// Lowers what `operator` may spend of the tokens of `owner` by `delta`
/// and returns the new allowance, as `decrease_outcome` says. Lowering
/// below zero is refused; lowering to exactly zero removes the entry. When
/// an address does not resolve nothing changes.
pub fn decrease_allowance<M: Messaging>(
    state: &mut TokenState,
    msg: &M,
    owner: &Address,
    operator: &Address,
    delta: u128,
) -> (r: Result<u128, TokenError>)
    requires
        old(state).valid(),
    ensures
        final(state).valid(),
        decrease_outcome(msg, owner, operator, old(state)@, delta, r, final(state)@),
{
    match resolve_both(msg, owner, true, operator, true) {
        Err(e) => Err(TokenError::Messaging(e)),
        Ok((owner_id, operator_id)) => match state.decrease_allowance(owner_id, operator_id, delta) {
            Ok(x) => Ok(x),
            Err(e) => Err(TokenError::TokenState(e)),
        },
    }
}

/// The ledger after a revocation, by what the operator's address
/// resolved to. An operator without an account has no allowance: that is
/// no error, and nothing changes. Any other failure to resolve is passed on.
pub open spec fn allowance_revoked_by(
    l: TokenLedger,
    owner: ActorID,
    operator: Result<ActorID, MessagingError>,
) -> Result<TokenLedger, TokenError> {
    match operator {
        Ok(id) => Ok(with_allowance(l, owner, id, 0)),
        Err(MessagingError::AddressNotResolved(_)) => Ok(l),
        Err(e) => Err(TokenError::Messaging(e)),
    }
}

/// Removes an allowance, given what the operator's address resolved to,
/// as `allowance_revoked_by` says.
pub fn revoke_allowance_resolved(
    state: &mut TokenState,
    owner: ActorID,
    operator: Result<ActorID, MessagingError>,
) -> (r: Result<(), TokenError>)
    requires
        old(state).valid(),
    ensures
        final(state).valid(),
        match allowance_revoked_by(old(state)@, owner, operator) {
            Ok(l) => r is Ok && final(state)@ == l,
            Err(e) => r == Err::<(), TokenError>(e) && final(state)@ == old(state)@,
        },
{
    match operator {
        Ok(id) => {
            state.revoke_allowance(owner, id);
            Ok(())
        },
        Err(MessagingError::AddressNotResolved(_)) => Ok(()),
        Err(e) => Err(TokenError::Messaging(e)),
    }
}

/// What a revocation leaves, given the answers for the owner and for the
/// operator: the error for the owner, and nothing changed; else what
/// `allowance_revoked_by` gives.
pub open spec fn revoke_decided(
    owner: Result<ActorID, MessagingError>,
    operator: Result<ActorID, MessagingError>,
    before: TokenLedger,
    r: Result<(), TokenError>,
    after: TokenLedger,
) -> bool {
    match owner {
        Err(e) => r == Err::<(), TokenError>(TokenError::Messaging(e)) && after == before,
        Ok(owner_id) => match allowance_revoked_by(before, owner_id, operator) {
            Ok(l) => r is Ok && after == l,
            Err(e) => r == Err::<(), TokenError>(e) && after == before,
        },
    }
}

/// What a revocation leaves, by what `msg` answers for the owner and,
/// where the owner has an account, for the operator.
pub open spec fn revoke_outcome<M: Messaging>(
    msg: &M,
    owner: &Address,
    operator: &Address,
    before: TokenLedger,
    r: Result<(), TokenError>,
    after: TokenLedger,
) -> bool {
    exists|a: Result<ActorID, MessagingError>, found: Result<ActorID, MessagingError>|
        {
            &&& call_ensures(M::resolve_id, (msg, owner), a)
            &&& a is Ok ==> call_ensures(M::resolve_id, (msg, operator), found)
            &&& #[trigger] revoke_decided(a, found, before, r, after)
        }
}

/// Removes what `operator` may spend of the tokens of `owner`, as
/// `revoke_outcome` says. Where the operator has no account the call
/// succeeds and nothing changes.
pub fn revoke_allowance<M: Messaging>(
    state: &mut TokenState,
    msg: &M,
    owner: &Address,
    operator: &Address,
) -> (r: Result<(), TokenError>)
    requires
        old(state).valid(),
    ensures
        final(state).valid(),
        revoke_outcome(msg, owner, operator, old(state)@, r, final(state)@),
{
    let a = msg.resolve_id(owner);
    let ghost a0 = a;
    let owner_id = match a {
        Ok(id) => id,
        Err(e) => {
            let r = Err(TokenError::Messaging(e));
            assert(revoke_decided(a0, a0, old(state)@, r, state@));
            return r;
        },
    };
    let found = msg.resolve_id(operator);
    let ghost found0 = found;
    let r = revoke_allowance_resolved(state, owner_id, found);
    assert(revoke_decided(a0, found0, old(state)@, r, state@));
    r
}

} // verus!
