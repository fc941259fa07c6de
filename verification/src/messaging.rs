//! The messaging capability: resolving addresses and notifying receivers.

use crate::address::{ActorID, Address, AddressView};
use crate::nft_state::TokenID;
use vstd::prelude::*;

verus! {

/// The exit code of a call that went through.
pub const EXIT_OK: u32 = 0;

/// The exit code with which the host refuses a receiver that cannot take the call.
pub const SYS_INVALID_RECEIVER: u32 = 5;

/// The id that `FakeMessenger` resolves every secp256k1 address to.
pub const FAKE_RESOLVED_ID: ActorID = 100;

/// The id that a default `FakeMessenger` gives to an account that it initialises.
pub const FAKE_INITIALIZED_ID: ActorID = 101;

/// The error numbers with which the host refuses a call.
#[derive(Clone, Copy, Debug, PartialEq, Eq)]
pub enum ErrorNumber {
    IllegalArgument,
    IllegalOperation,
    LimitExceeded,
    AssertionFailed,
    InsufficientFunds,
    NotFound,
    InvalidHandle,
    IllegalCid,
    IllegalCodec,
    Serialization,
    Forbidden,
    BufferTooSmall,
    ReadOnly,
}

/// Why a call to the host or to another actor failed.
#[derive(Debug)]
pub enum MessagingError {
    /// The host refused the call, with this error number.
    Syscall(ErrorNumber),
    /// The address has no account id yet.
    AddressNotResolved(Address),
    /// No account can be created at the address.
    AddressNotInitialised(Address),
    /// The parameters of the call could not be laid out.
    Ipld,
}

/// What a call to another actor returned.
#[derive(Debug)]
pub struct Receipt {
    pub exit_code: u32,
    pub return_data: Vec<u8>,
    pub gas_used: i64,
}

/// What a receiver hook is told: who moved what to whom, and the data that
/// the operator and the token passed along. A fungible transfer names an
/// amount, a non-fungible one the ids.
#[derive(Debug)]
pub struct TokensReceived {
    pub operator: ActorID,
    pub from: ActorID,
    pub to: ActorID,
    pub amount: u128,
    pub token_ids: Vec<TokenID>,
    pub operator_data: Vec<u8>,
    pub token_data: Vec<u8>,
}

/// The model of a notification.
pub ghost struct TokensReceivedView {
    pub operator: ActorID,
    pub from: ActorID,
    pub to: ActorID,
    pub amount: u128,
    pub token_ids: Seq<TokenID>,
    pub operator_data: Seq<u8>,
    pub token_data: Seq<u8>,
}

impl View for TokensReceived {
    type V = TokensReceivedView;

    open spec fn view(&self) -> TokensReceivedView {
        TokensReceivedView {
            operator: self.operator,
            from: self.from,
            to: self.to,
            amount: self.amount,
            token_ids: self.token_ids@,
            operator_data: self.operator_data@,
            token_data: self.token_data@,
        }
    }
}

/// The means to resolve addresses and to call other actors.
///
/// What the host answers depends on the state of the chain, which other
/// actors change during a call: no method promises a particular answer.
pub trait Messaging {
    /// The addresses at which `initialise_account` may be asked to create
    /// an account: every address, unless the implementation says otherwise.
    open spec fn can_initialise(&self, address: AddressView) -> bool {
        true
    }

    /// Calls the receiver hook of the actor `notice.to` and returns what it
    /// answered. A receipt with another exit code than `EXIT_OK` is a
    /// refusal by the receiver; an error is a failure of the call itself.
    fn call_receiver_hook(&self, notice: &TokensReceived) -> (r: Result<Receipt, MessagingError>)
    ;

    /// The account id behind an address. An address that it does not
    /// resolve may be handed to `initialise_account`.
    fn resolve_id(&self, address: &Address) -> (r: Result<ActorID, MessagingError>)
        ensures
            r is Err ==> self.can_initialise(address@),
    ;

    /// Creates an account at the address and returns its id.
    fn initialise_account(&self, address: &Address) -> (r: Result<ActorID, MessagingError>)
        requires
            self.can_initialise(address@),
    ;
}

/// What `resolve_or_init` returns for an answer of `resolve_id`, where
/// `initialised` is the answer of `initialise_account` for an address that
/// did not resolve: the id that resolved, else the id of the new account,
/// else the error of the initialisation. An error of `resolve_id` other than
/// `AddressNotResolved` is passed on.
pub open spec fn resolution(
    resolved: Result<ActorID, MessagingError>,
    initialised: Result<ActorID, MessagingError>,
) -> Result<ActorID, MessagingError> {
    match resolved {
        Ok(id) => Ok(id),
        Err(MessagingError::AddressNotResolved(_)) => initialised,
        Err(e) => Err(e),
    }
}

/// The account id behind an address; where the address has none yet, the
/// id of an account created for it. Fails only if the address does not
/// resolve for another reason than having no account, or if no account can
/// be created at it.
pub fn resolve_or_init<M: Messaging>(msg: &M, address: &Address) -> (r: Result<
    ActorID,
    MessagingError,
>)
    ensures
        exists|resolved: Result<ActorID, MessagingError>, initialised: Result<ActorID, MessagingError>|
            {
                &&& call_ensures(M::resolve_id, (msg, address), resolved)
                &&& (resolved is Err && resolved->Err_0 is AddressNotResolved ==> call_ensures(
                    M::initialise_account,
                    (msg, address),
                    initialised,
                ))
                &&& r == #[trigger] resolution(resolved, initialised)
            },
{
    let resolved = msg.resolve_id(address);
    match resolved {
        Ok(id) => {
            assert(resolution(resolved, resolved) == Ok::<ActorID, MessagingError>(id));
            Ok(id)
        },
        Err(MessagingError::AddressNotResolved(a)) => {
            let initialised = msg.initialise_account(address);
            assert(resolution(resolved, initialised) == initialised);
            initialised
        },
        Err(e) => {
            assert(resolution(resolved, resolved) == Err::<ActorID, MessagingError>(e));
            Err(e)
        },
    }
}

/// `r` is what `msg` answers for `address`: the answer of `resolve_id`,
/// or, where `initialise` holds, what `resolve_or_init` makes of the answers
/// of `resolve_id` and, for an address without account, `initialise_account`.
pub open spec fn answered<M: Messaging>(
    msg: &M,
    address: &Address,
    initialise: bool,
    r: Result<ActorID, MessagingError>,
) -> bool {
    if initialise {
        exists|found: Result<ActorID, MessagingError>, initialised: Result<ActorID, MessagingError>|
            {
                &&& call_ensures(M::resolve_id, (msg, address), found)
                &&& (found is Err && found->Err_0 is AddressNotResolved ==> call_ensures(
                    M::initialise_account,
                    (msg, address),
                    initialised,
                ))
                &&& r == #[trigger] resolution(found, initialised)
            }
    } else {
        call_ensures(M::resolve_id, (msg, address), r)
    }
}

/// The account behind an address, which gets an account if it has none
/// and `initialise` holds.
pub fn resolve<M: Messaging>(msg: &M, address: &Address, initialise: bool) -> (r: Result<
    ActorID,
    MessagingError,
>)
    ensures
        answered(msg, address, initialise, r),
{
    if initialise {
        resolve_or_init(msg, address)
    } else {
        msg.resolve_id(address)
    }
}

/// Two answers as one: the first error, or both ids.
pub open spec fn paired(
    a: Result<ActorID, MessagingError>,
    b: Result<ActorID, MessagingError>,
) -> Result<(ActorID, ActorID), MessagingError> {
    match a {
        Err(e) => Err(e),
        Ok(x) => match b {
            Err(e) => Err(e),
            Ok(y) => Ok((x, y)),
        },
    }
}

/// `r` is what `msg` answers for two addresses in turn: the second is
/// asked only where the first has an answer that is no error.
pub open spec fn both_answered<M: Messaging>(
    msg: &M,
    first: &Address,
    initialise_first: bool,
    second: &Address,
    initialise_second: bool,
    r: Result<(ActorID, ActorID), MessagingError>,
) -> bool {
    exists|a: Result<ActorID, MessagingError>, b: Result<ActorID, MessagingError>|
        {
            &&& answered(msg, first, initialise_first, a)
            &&& a is Ok ==> answered(msg, second, initialise_second, b)
            &&& r == #[trigger] paired(a, b)
        }
}

/// The accounts behind two addresses, asked for in turn.
pub fn resolve_both<M: Messaging>(
    msg: &M,
    first: &Address,
    initialise_first: bool,
    second: &Address,
    initialise_second: bool,
) -> (r: Result<(ActorID, ActorID), MessagingError>)
    ensures
        both_answered(msg, first, initialise_first, second, initialise_second, r),
{
    let a = resolve(msg, first, initialise_first);
    let ghost a0 = a;
    let x = match a {
        Ok(x) => x,
        Err(e) => {
            assert(paired(a0, a0) == Err::<(ActorID, ActorID), MessagingError>(e));
            return Err(e);
        },
    };
    let b = resolve(msg, second, initialise_second);
    let ghost b0 = b;
    let r = match b {
        Ok(y) => Ok((x, y)),
        Err(e) => Err(e),
    };
    assert(r == paired(a0, b0));
    r
}

/// A messenger for tests, which answers from the form of the address alone.
///
/// - An id address resolves to its id, a secp256k1 address to
///   `FAKE_RESOLVED_ID`; actor and BLS addresses do not resolve.
/// - An account is initialised at a BLS address only; its id is the one
///   that the messenger was made with.
/// - A receiver hook accepts a notification without operator data and
///   refuses every other.
#[derive(Debug, Clone, Copy)]
pub struct FakeMessenger {
    pub actor_id: ActorID,
    pub first_id: ActorID,
}

impl FakeMessenger {
    /// A messenger for the actor `actor_id`, which gives the id `first_id`
    /// to an account that it initialises.
    pub fn new(actor_id: ActorID, first_id: ActorID) -> (r: Self)
        ensures
            r.actor_id == actor_id,
            r.first_id == first_id,
    {
        FakeMessenger { actor_id, first_id }
    }

    /// What the messenger resolves an address to.
    pub open spec fn resolves(address: AddressView) -> Option<ActorID> {
        match address {
            AddressView::Id(id) => Some(id),
            AddressView::Secp256k1(_) => Some(FAKE_RESOLVED_ID),
            AddressView::Actor(_) => None,
            AddressView::Bls(_) => None,
        }
    }
}

impl Default for FakeMessenger {
    fn default() -> (r: Self)
        ensures
            r.actor_id == 0,
            r.first_id == FAKE_INITIALIZED_ID,
    {
        FakeMessenger { actor_id: 0, first_id: FAKE_INITIALIZED_ID }
    }
}

impl Messaging for FakeMessenger {
    open spec fn can_initialise(&self, address: AddressView) -> bool {
        address is Actor || address is Bls
    }

    fn call_receiver_hook(&self, notice: &TokensReceived) -> (r: Result<Receipt, MessagingError>)
        ensures
            r is Ok,
            r->Ok_0.exit_code == (if notice.operator_data@.len() == 0 {
                EXIT_OK
            } else {
                SYS_INVALID_RECEIVER
            }),
            r->Ok_0.return_data@ == notice.operator_data@,
            r->Ok_0.gas_used == 0,
    {
        if notice.operator_data.len() == 0 {
            Ok(Receipt { exit_code: EXIT_OK, return_data: notice.operator_data.clone(), gas_used: 0 })
        } else {
            Ok(
                Receipt {
                    exit_code: SYS_INVALID_RECEIVER,
                    return_data: notice.operator_data.clone(),
                    gas_used: 0,
                },
            )
        }
    }

    fn resolve_id(&self, address: &Address) -> (r: Result<ActorID, MessagingError>)
        ensures
            match Self::resolves(address@) {
                Some(id) => r == Ok::<ActorID, MessagingError>(id),
                None => r is Err && r->Err_0 is AddressNotResolved
                    && r->Err_0->AddressNotResolved_0@ == address@,
            },
    {
        match address {
            Address::Id(id) => Ok(*id),
            Address::Secp256k1(_) => Ok(FAKE_RESOLVED_ID),
            Address::Actor(_) => Err(MessagingError::AddressNotResolved(address.duplicate())),
            Address::Bls(_) => Err(MessagingError::AddressNotResolved(address.duplicate())),
        }
    }

    fn initialise_account(&self, address: &Address) -> (r: Result<ActorID, MessagingError>)
        ensures
            address@ is Bls ==> r == Ok::<ActorID, MessagingError>(self.first_id),
            address@ is Actor ==> r is Err && r->Err_0 is AddressNotInitialised
                && r->Err_0->AddressNotInitialised_0@ == address@,
    {
        match address {
            Address::Bls(_) => Ok(self.first_id),
            _ => Err(MessagingError::AddressNotInitialised(address.duplicate())),
        }
    }
}

} // verus!
