//! A fungible token with an authorised minter: the token state together
//! with its name, symbol, granularity and minter, the services it needs, and
//! the complete protocol of each operation, receiver hook included.

use crate::actor::{set_root_of, ActorError, RootRequest, RootUpdateError, Runtime};
use crate::address::{ActorID, Address, ContentAddress};
use crate::codec::{
    bytes_decoding, bytes_encoding, decode_bytes, decode_word, encode_bytes, encode_word,
    lemma_bytes_round_trip, lemma_word_round_trip, word_decoding, word_encoding,
};
use crate::messaging::{ErrorNumber, MessagingError, Receipt};
use crate::receiver::{settled, ReceiverHook, ReceiverHookError};
use crate::store::{
    get_answered, get_block, put_answered, put_block, Blockstore, StorageError,
};
use crate::token::{
    BurnFromParams, BurnFromReturn, BurnParams, BurnReturn, DecreaseAllowanceParams,
    GetAllowanceParams, IncreaseAllowanceParams, MintReturn, RevokeAllowanceParams, TokenError,
    TransferFromParams, TransferFromReturn, TransferIntermediate, TransferParams, TransferReturn,
};
use crate::token_state::{
    allowance_between, lemma_token_ledger_round_trip, token_balance, token_ledger_decoding,
    token_ledger_encoding, token_ledger_sound, TokenLedger, TokenState, TokenStateError,
};
use vstd::prelude::*;

verus! {

/// The exit codes that an actor may leave with.
pub const USR_ILLEGAL_ARGUMENT: u32 = 16;

pub const USR_NOT_FOUND: u32 = 17;

pub const USR_FORBIDDEN: u32 = 18;

pub const USR_INSUFFICIENT_FUNDS: u32 = 19;

pub const USR_ILLEGAL_STATE: u32 = 20;

pub const USR_SERIALIZATION: u32 = 21;

pub const USR_UNHANDLED_MESSAGE: u32 = 22;

pub const USR_UNSPECIFIED: u32 = 23;

pub const USR_ASSERTION_FAILED: u32 = 24;

pub const USR_READ_ONLY: u32 = 25;

/// The block id that stands for "no data returned".
pub const NO_DATA_BLOCK_ID: u32 = 0;

/// Errors that can occur during the execution of the token actor.
#[derive(Debug)]
pub enum RuntimeError {
    /// The token refused the operation.
    Token(TokenError),
    /// The receiver hook failed or the receiver refused the tokens.
    Receiver(ReceiverHookError),
    /// Parameters or results could not be laid out.
    Encoding,
    /// The host refused access to a block.
    Blockstore(ErrorNumber),
    /// The actor has no state.
    NoState,
    /// The root of the actor could not be replaced.
    StateUpdate(RootUpdateError),
    /// The state could not be loaded.
    Deserialization(StorageError),
    /// The state could not be flushed.
    Serialization(StorageError),
    /// The ledger state refused a transition.
    State(TokenStateError),
    /// An address could not be resolved.
    Messaging(MessagingError),
    /// The caller is not the authorised minter.
    AddressNotAuthorized,
    /// Minting has been permanently disabled.
    MintingDisabled,
}

/// The exit code for an error number of the host.
pub open spec fn syscall_exit_code(e: ErrorNumber) -> u32 {
    match e {
        ErrorNumber::IllegalArgument => USR_ILLEGAL_ARGUMENT,
        ErrorNumber::Forbidden | ErrorNumber::IllegalOperation => USR_FORBIDDEN,
        ErrorNumber::AssertionFailed => USR_ASSERTION_FAILED,
        ErrorNumber::InsufficientFunds => USR_INSUFFICIENT_FUNDS,
        ErrorNumber::IllegalCid | ErrorNumber::NotFound | ErrorNumber::InvalidHandle => USR_NOT_FOUND,
        ErrorNumber::Serialization | ErrorNumber::IllegalCodec => USR_SERIALIZATION,
        _ => USR_UNSPECIFIED,
    }
}

/// The exit code for a refusal by the ledger state.
pub open spec fn state_exit_code(e: TokenStateError) -> u32 {
    match e {
        TokenStateError::InsufficientBalance { .. } => USR_INSUFFICIENT_FUNDS,
        TokenStateError::InsufficientAllowance { .. } => USR_INSUFFICIENT_FUNDS,
        TokenStateError::InvalidGranularity { .. } => USR_ILLEGAL_ARGUMENT,
        TokenStateError::Overflow => USR_ILLEGAL_STATE,
        TokenStateError::InvariantFailed => USR_ILLEGAL_STATE,
    }
}

/// The exit code for a failure of messaging.
pub open spec fn messaging_exit_code(e: MessagingError) -> u32 {
    match e {
        MessagingError::Syscall(n) => syscall_exit_code(n),
        MessagingError::AddressNotResolved(_) => USR_NOT_FOUND,
        MessagingError::AddressNotInitialised(_) => USR_NOT_FOUND,
        MessagingError::Ipld => USR_SERIALIZATION,
    }
}

/// The exit code for a failure of the token.
pub open spec fn token_exit_code(e: TokenError) -> u32 {
    match e {
        TokenError::TokenState(s) => state_exit_code(s),
        TokenError::Messaging(m) => messaging_exit_code(m),
    }
}

/// The exit code for a failure of a receiver hook.
pub open spec fn receiver_exit_code(e: ReceiverHookError) -> u32 {
    match e {
        ReceiverHookError::AlreadyCalled => USR_ILLEGAL_STATE,
        ReceiverHookError::Messaging(m) => messaging_exit_code(m),
        ReceiverHookError::Receiver { .. } => USR_FORBIDDEN,
    }
}

/// The exit code that the actor leaves with for each kind of error.
pub open spec fn exit_code_of(e: RuntimeError) -> u32 {
    match e {
        RuntimeError::Token(t) => token_exit_code(t),
        RuntimeError::Receiver(r) => receiver_exit_code(r),
        RuntimeError::Encoding => USR_SERIALIZATION,
        RuntimeError::Blockstore(n) => syscall_exit_code(n),
        RuntimeError::NoState => USR_NOT_FOUND,
        RuntimeError::StateUpdate(u) => match u {
            RootUpdateError::ActorDeleted => USR_ILLEGAL_STATE,
            RootUpdateError::ReadOnly => USR_READ_ONLY,
        },
        RuntimeError::Deserialization(_) | RuntimeError::Serialization(_) => USR_SERIALIZATION,
        RuntimeError::State(s) => state_exit_code(s),
        RuntimeError::Messaging(m) => messaging_exit_code(m),
        RuntimeError::AddressNotAuthorized | RuntimeError::MintingDisabled => USR_FORBIDDEN,
    }
}

/// No error is ever reported as success, nor with a code that is reserved
/// for the system: every exit code is one of the codes for actors.
pub proof fn lemma_exit_codes_are_user_codes(e: RuntimeError)
    ensures
        USR_ILLEGAL_ARGUMENT <= exit_code_of(e) <= USR_READ_ONLY,
        exit_code_of(e) != crate::messaging::EXIT_OK,
{
}

/// The exit code for an error number of the host.
pub fn exit_code_of_syscall(e: ErrorNumber) -> (r: u32)
    ensures
        r == syscall_exit_code(e),
{
    match e {
        ErrorNumber::IllegalArgument => USR_ILLEGAL_ARGUMENT,
        ErrorNumber::Forbidden | ErrorNumber::IllegalOperation => USR_FORBIDDEN,
        ErrorNumber::AssertionFailed => USR_ASSERTION_FAILED,
        ErrorNumber::InsufficientFunds => USR_INSUFFICIENT_FUNDS,
        ErrorNumber::IllegalCid | ErrorNumber::NotFound | ErrorNumber::InvalidHandle => USR_NOT_FOUND,
        ErrorNumber::Serialization | ErrorNumber::IllegalCodec => USR_SERIALIZATION,
        _ => USR_UNSPECIFIED,
    }
}

/// The exit code for a refusal by the ledger state.
pub fn exit_code_of_state(e: &TokenStateError) -> (r: u32)
    ensures
        r == state_exit_code(*e),
{
    match e {
        TokenStateError::InsufficientBalance { .. } => USR_INSUFFICIENT_FUNDS,
        TokenStateError::InsufficientAllowance { .. } => USR_INSUFFICIENT_FUNDS,
        TokenStateError::InvalidGranularity { .. } => USR_ILLEGAL_ARGUMENT,
        TokenStateError::Overflow => USR_ILLEGAL_STATE,
        TokenStateError::InvariantFailed => USR_ILLEGAL_STATE,
    }
}

/// The exit code for a failure of messaging.
pub fn exit_code_of_messaging(e: &MessagingError) -> (r: u32)
    ensures
        r == messaging_exit_code(*e),
{
    match e {
        MessagingError::Syscall(n) => exit_code_of_syscall(*n),
        MessagingError::AddressNotResolved(_) => USR_NOT_FOUND,
        MessagingError::AddressNotInitialised(_) => USR_NOT_FOUND,
        MessagingError::Ipld => USR_SERIALIZATION,
    }
}

/// The exit code for a failure of a receiver hook.
pub fn exit_code_of_receiver(e: &ReceiverHookError) -> (r: u32)
    ensures
        r == receiver_exit_code(*e),
{
    match e {
        ReceiverHookError::AlreadyCalled => USR_ILLEGAL_STATE,
        ReceiverHookError::Messaging(m) => exit_code_of_messaging(m),
        ReceiverHookError::Receiver { .. } => USR_FORBIDDEN,
    }
}

/// The exit code that the actor leaves with for an error.
pub fn exit_code(error: &RuntimeError) -> (r: u32)
    ensures
        r == exit_code_of(*error),
{
    match error {
        RuntimeError::Token(t) => match t {
            TokenError::TokenState(s) => exit_code_of_state(s),
            TokenError::Messaging(m) => exit_code_of_messaging(m),
        },
        RuntimeError::Receiver(r) => exit_code_of_receiver(r),
        RuntimeError::Encoding => USR_SERIALIZATION,
        RuntimeError::Blockstore(n) => exit_code_of_syscall(*n),
        RuntimeError::NoState => USR_NOT_FOUND,
        RuntimeError::StateUpdate(u) => match u {
            RootUpdateError::ActorDeleted => USR_ILLEGAL_STATE,
            RootUpdateError::ReadOnly => USR_READ_ONLY,
        },
        RuntimeError::Deserialization(_) | RuntimeError::Serialization(_) => USR_SERIALIZATION,
        RuntimeError::State(s) => exit_code_of_state(s),
        RuntimeError::Messaging(m) => exit_code_of_messaging(m),
        RuntimeError::AddressNotAuthorized | RuntimeError::MintingDisabled => USR_FORBIDDEN,
    }
}

/// The parameters of the constructor.
#[derive(Debug)]
pub struct ConstructorParams {
    pub name: Vec<u8>,
    pub symbol: Vec<u8>,
    pub granularity: u64,
    /// The authorised minter: only this address can mint, and only it can
    /// give that up, which disables minting for good.
    pub minter: Address,
}

/// The parameters of `Mint`.
#[derive(Debug)]
pub struct MintParams {
    pub initial_owner: Address,
    pub amount: u128,
    pub operator_data: Vec<u8>,
}

/// The model of the state of a token with a minter.
pub ghost struct FactoryLedger {
    pub token: TokenLedger,
    pub name: Seq<u8>,
    pub symbol: Seq<u8>,
    pub granularity: u64,
    pub minter: Option<ActorID>,
}

/// The layout of an optional account id: a word that says whether there is one, then the id.
pub open spec fn minter_encoding(m: Option<ActorID>) -> Seq<u8> {
    match m {
        None => word_encoding(0),
        Some(id) => word_encoding(1) + word_encoding(id),
    }
}

/// Reads an optional account id from the front of `b`.
pub open spec fn minter_decoding(b: Seq<u8>) -> Option<(Option<ActorID>, Seq<u8>)> {
    match word_decoding(b) {
        None => None,
        Some((tag, b1)) => if tag == 0 {
            Some((None, b1))
        } else if tag == 1 {
            match word_decoding(b1) {
                None => None,
                Some((id, b2)) => Some((Some(id), b2)),
            }
        } else {
            None
        },
    }
}

/// The layout of the state: token ledger, name, symbol, granularity, minter.
pub open spec fn factory_encoding(l: FactoryLedger) -> Seq<u8> {
    token_ledger_encoding(l.token) + bytes_encoding(l.name) + bytes_encoding(l.symbol)
        + word_encoding(l.granularity) + minter_encoding(l.minter)
}

/// Reads a state from a whole block; fails on truncated or trailing bytes.
pub open spec fn factory_decoding(b: Seq<u8>) -> Option<FactoryLedger> {
    match token_ledger_decoding(b) {
        None => None,
        Some((token, b1)) => match bytes_decoding(b1) {
            None => None,
            Some((name, b2)) => match bytes_decoding(b2) {
                None => None,
                Some((symbol, b3)) => match word_decoding(b3) {
                    None => None,
                    Some((granularity, b4)) => match minter_decoding(b4) {
                        None => None,
                        Some((minter, b5)) => if b5.len() == 0 {
                            Some(FactoryLedger { token, name, symbol, granularity, minter })
                        } else {
                            None
                        },
                    },
                },
            },
        },
    }
}

/// The states that can be laid out.
pub open spec fn factory_sound(l: FactoryLedger) -> bool {
    token_ledger_sound(l.token) && l.name.len() <= u64::MAX && l.symbol.len() <= u64::MAX
}

/// Decoding inverts encoding for every sound state.
pub proof fn lemma_factory_round_trip(l: FactoryLedger)
    requires
        factory_sound(l),
    ensures
        factory_decoding(factory_encoding(l)) == Some(l),
{
    let t4 = minter_encoding(l.minter);
    let t3 = word_encoding(l.granularity) + t4;
    let t2 = bytes_encoding(l.symbol) + t3;
    let t1 = bytes_encoding(l.name) + t2;
    lemma_token_ledger_round_trip(l.token, t1);
    lemma_bytes_round_trip(l.name, t2);
    lemma_bytes_round_trip(l.symbol, t3);
    lemma_word_round_trip(l.granularity, t4);
    assert(factory_encoding(l) =~= token_ledger_encoding(l.token) + t1);
    match l.minter {
        None => {
            lemma_word_round_trip(0, Seq::empty());
            assert(word_encoding(0) + Seq::<u8>::empty() =~= word_encoding(0));
        },
        Some(id) => {
            lemma_word_round_trip(1, word_encoding(id));
            lemma_word_round_trip(id, Seq::empty());
            assert(word_encoding(id) + Seq::<u8>::empty() =~= word_encoding(id));
        },
    }
}

/// What loading a state from `address` gives, by what the store holds there.
pub open spec fn factory_loaded(blocks: Map<Seq<u8>, Seq<u8>>, address: Seq<u8>) -> Result<
    FactoryLedger,
    StorageError,
> {
    if !blocks.contains_key(address) {
        Err(StorageError::Missing)
    } else {
        match factory_decoding(blocks[address]) {
            Some(l) => Ok(l),
            None => Err(StorageError::Corrupt),
        }
    }
}

/// Whether `caller` may mint, or give up minting: nobody may once minting
/// is disabled, whoever calls; else only the minter.
pub open spec fn minting_permitted(minter: Option<ActorID>, caller: ActorID) -> Result<
    (),
    RuntimeError,
> {
    match minter {
        None => Err(RuntimeError::MintingDisabled),
        Some(m) => if m == caller {
            Ok(())
        } else {
            Err(RuntimeError::AddressNotAuthorized)
        },
    }
}

/// Once minting is disabled, no caller is permitted to mint: whoever
/// calls is refused with `MintingDisabled`.
pub proof fn lemma_minting_disabled_for_everybody(caller: ActorID)
    ensures
        minting_permitted(None, caller) == Err::<(), RuntimeError>(RuntimeError::MintingDisabled),
{
}

/// Decides whether `caller` may mint, or give up minting.
pub fn check_minter(minter: Option<ActorID>, caller: ActorID) -> (r: Result<(), RuntimeError>)
    ensures
        r == minting_permitted(minter, caller),
{
    match minter {
        None => Err(RuntimeError::MintingDisabled),
        Some(m) => if m == caller {
            Ok(())
        } else {
            Err(RuntimeError::AddressNotAuthorized)
        },
    }
}

/// The state of a token with a minter.
pub struct FactoryTokenState {
    /// The ledger.
    pub token: TokenState,
    /// The UTF-8 bytes of the name.
    pub name: Vec<u8>,
    /// The UTF-8 bytes of the symbol.
    pub symbol: Vec<u8>,
    /// The smallest unit that can be moved.
    pub granularity: u64,
    /// The authorised minter; `None` once minting is disabled.
    pub minter: Option<ActorID>,
}

impl View for FactoryTokenState {
    type V = FactoryLedger;

    open spec fn view(&self) -> FactoryLedger {
        FactoryLedger {
            token: self.token@,
            name: self.name@,
            symbol: self.symbol@,
            granularity: self.granularity,
            minter: self.minter,
        }
    }
}

impl FactoryTokenState {
    /// The ledger is valid.
    pub open spec fn valid(&self) -> bool {
        self.token.valid()
    }

    /// The layout of the state as one block.
    pub fn to_bytes(&self) -> (r: Vec<u8>)
        requires
            self.valid(),
        ensures
            r@ == factory_encoding(self@),
            factory_decoding(r@) == Some(self@),
    {
        let mut out: Vec<u8> = Vec::new();
        self.token.encode(&mut out);
        encode_bytes(&self.name, &mut out);
        encode_bytes(&self.symbol, &mut out);
        encode_word(self.granularity, &mut out);
        match self.minter {
            None => {
                encode_word(0, &mut out);
            },
            Some(id) => {
                encode_word(1, &mut out);
                encode_word(id, &mut out);
            },
        }
        proof {
            assert(out@ =~= factory_encoding(self@));
            self.token.lemma_valid_sound();
            assert(self.name@.len() == self.name.len());
            assert(self.symbol@.len() == self.symbol.len());
            lemma_factory_round_trip(self@);
        }
        out
    }

    /// Reads a state from one block; `None` when the block is no layout of a state.
    pub fn from_bytes(bytes: &[u8]) -> (r: Option<Self>)
        ensures
            match r {
                Some(s) => s.valid() && factory_decoding(bytes@) == Some(s@),
                None => factory_decoding(bytes@) is None,
            },
    {
        assert(bytes@.skip(0) =~= bytes@);
        let (token, end1) = match TokenState::decode(bytes, 0) {
            Some(pair) => pair,
            None => {
                return None;
            },
        };
        let (name, end2) = match decode_bytes(bytes, end1) {
            Some(pair) => pair,
            None => {
                return None;
            },
        };
        let (symbol, end3) = match decode_bytes(bytes, end2) {
            Some(pair) => pair,
            None => {
                return None;
            },
        };
        let (granularity, end4) = match decode_word(bytes, end3) {
            Some(pair) => pair,
            None => {
                return None;
            },
        };
        let (tag, end5) = match decode_word(bytes, end4) {
            Some(pair) => pair,
            None => {
                return None;
            },
        };
        let (minter, end6) = if tag == 0 {
            (None, end5)
        } else if tag == 1 {
            match decode_word(bytes, end5) {
                Some((id, end)) => (Some(id), end),
                None => {
                    return None;
                },
            }
        } else {
            return None;
        };
        if end6 != bytes.len() {
            return None;
        }
        Some(FactoryTokenState { token, name, symbol, granularity, minter })
    }

    /// Loads the state that was flushed to `address`, as
    /// `state_load_outcome` says; a block that is missing or is no layout of
    /// a state is reported as `Deserialization`.
    pub fn load<BS: Blockstore>(bs: &BS, address: &ContentAddress) -> (r: Result<Self, RuntimeError>)
        requires
            bs.inv(),
        ensures
            state_load_outcome(bs, address@, r),
    {
        match get_block(bs, address) {
            Err(e) => Err(RuntimeError::Deserialization(e)),
            Ok(None) => Err(RuntimeError::Deserialization(StorageError::Missing)),
            Ok(Some(bytes)) => match FactoryTokenState::from_bytes(bytes.as_slice()) {
                Some(state) => Ok(state),
                None => Err(RuntimeError::Deserialization(StorageError::Corrupt)),
            },
        }
    }
}

/// What loading a state leaves, by what the store answers when asked for
/// the block under `address`: `Deserialization` with the error of the
/// store; else what the store holds there, as `factory_loaded` says, with
/// its error as `Deserialization`.
pub open spec fn state_load_outcome<BS: Blockstore>(
    bs: &BS,
    address: Seq<u8>,
    r: Result<FactoryTokenState, RuntimeError>,
) -> bool {
    exists|answer: Result<Option<Vec<u8>>, StorageError>|
        #[trigger] get_answered(bs, address, answer) && match answer {
            Err(e) => r is Err && r->Err_0 == RuntimeError::Deserialization(e),
            Ok(_) => match factory_loaded(bs.blocks(), address) {
                Ok(l) => r is Ok && r->Ok_0.valid() && r->Ok_0@ == l,
                Err(e) => r is Err && r->Err_0 == RuntimeError::Deserialization(e),
            },
        }
}

/// The state with another ledger.
pub open spec fn with_token(l: FactoryLedger, token: TokenLedger) -> FactoryLedger {
    FactoryLedger {
        token,
        name: l.name,
        symbol: l.symbol,
        granularity: l.granularity,
        minter: l.minter,
    }
}

/// The address under which a state is flushed.
pub open spec fn address_of(l: FactoryLedger) -> Seq<u8> {
    crate::address::block_address(crate::address::IPLD_RAW, factory_encoding(l))
}

/// The store after a state was flushed to it.
pub open spec fn flushed(blocks: Map<Seq<u8>, Seq<u8>>, l: FactoryLedger) -> Map<Seq<u8>, Seq<u8>> {
    blocks.insert(address_of(l), factory_encoding(l))
}

/// What flushing the state `l` to the store `bs` leaves, by what the
/// store answers: the address of `l` and the store with `l` under it; or
/// `Serialization` with the error of the store, which is then as it was.
pub open spec fn saved<BS: Blockstore>(
    bs: BS,
    l: FactoryLedger,
    r: Result<ContentAddress, RuntimeError>,
    blocks_after: Map<Seq<u8>, Seq<u8>>,
) -> bool {
    exists|stored: Result<ContentAddress, StorageError>|
        #[trigger] put_answered(bs, factory_encoding(l), stored) && match stored {
            Ok(address) => {
                &&& r == Ok::<ContentAddress, RuntimeError>(address)
                &&& address@ == address_of(l)
                &&& blocks_after == flushed(bs.blocks(), l)
            },
            Err(e) => {
                &&& r == Err::<ContentAddress, RuntimeError>(RuntimeError::Serialization(e))
                &&& e == StorageError::Unavailable
                &&& blocks_after == bs.blocks()
            },
        }
}

/// What the second phase leaves once the root was set, where `cid` is
/// that root: the hook is called once, `after_runtime` answers the
/// notification and the answer is settled. A failure of the hook is
/// returned and the state stays: the operation is not undone. Else the
/// state is reconciled with the root as `reload_settled` says, whose error
/// is returned; else the intermediate that the hook gave.
pub open spec fn hook_answered<BS: Blockstore, R: Runtime>(
    after_runtime: &R,
    state: FactoryLedger,
    bs: &BS,
    cid: ContentAddress,
    hook: ReceiverHook<TransferIntermediate>,
    r: Result<TransferIntermediate, RuntimeError>,
    after: FactoryLedger,
) -> bool {
    exists|
        outcome: Result<Receipt, MessagingError>,
        answer: Result<TransferIntermediate, ReceiverHookError>,
    |
        {
            &&& hook.answered_by(after_runtime, outcome)
            &&& #[trigger] settled(outcome, hook.notice().to, hook.intermediate(), answer)
            &&& match answer {
                Err(e) => r == Err::<TransferIntermediate, RuntimeError>(RuntimeError::Receiver(e))
                    && after == state,
                Ok(t) => exists|reload: Result<(), RuntimeError>|
                    #[trigger] reload_settled(after_runtime, state, bs, cid@, reload, after)
                        && match reload {
                        Err(e) => r == Err::<TransferIntermediate, RuntimeError>(e),
                        Ok(_) => r == Ok::<TransferIntermediate, RuntimeError>(t),
                    },
            }
        }
}

/// What the second phase of an operation leaves, where `state` is the
/// state after the tokens moved, `after_runtime` the runtime after, and
/// `asked` what the runtime was asked to make its root, if it was asked,
/// with its answer. The state is flushed as `saved` says; if that fails its
/// error is returned and nothing more happens. Else the runtime is asked to
/// make the flushed address its root; if it refuses, `StateUpdate` with its
/// error is returned and the hook is not called. Else the rest goes as
/// `hook_answered` says. Whatever fails, the state in memory is `state`
/// unless it was reconciled with a root that the receiver changed.
pub open spec fn notified<BS: Blockstore, R: Runtime>(
    after_runtime: &R,
    bs: BS,
    state: FactoryLedger,
    hook: ReceiverHook<TransferIntermediate>,
    asked: Option<RootRequest>,
    r: Result<TransferIntermediate, RuntimeError>,
    after: FactoryLedger,
    after_bs: &BS,
) -> bool {
    exists|flush: Result<ContentAddress, RuntimeError>|
        #[trigger] saved(bs, state, flush, after_bs.blocks()) && match flush {
            Err(e) => asked is None && r == Err::<TransferIntermediate, RuntimeError>(e) && after
                == state,
            Ok(cid) => asked is Some && asked->Some_0.address == cid
                && match asked->Some_0.answer {
                Err(e) => r == Err::<TransferIntermediate, RuntimeError>(
                    RuntimeError::StateUpdate(e),
                ) && after == state,
                Ok(_) => hook_answered(after_runtime, state, after_bs, cid, hook, r, after),
            },
        }
}

/// What a transfer leaves once the token has answered, where `accepted`
/// is its answer and `mid` the ledger it left. The error of the token is
/// returned and nothing changes, neither in memory nor in the store. Else
/// the second phase runs as `notified` says; its error is returned; else
/// the balances reported are those of the state in memory after it.
pub open spec fn transfer_completed<BS: Blockstore, R: Runtime>(
    after_runtime: &R,
    bs: BS,
    before: FactoryLedger,
    accepted: Result<ReceiverHook<TransferIntermediate>, TokenError>,
    mid: TokenLedger,
    asked: Option<RootRequest>,
    r: Result<TransferReturn, RuntimeError>,
    after: FactoryLedger,
    after_bs: &BS,
) -> bool {
    match accepted {
        Err(e) => {
            &&& asked is None
            &&& r == Err::<TransferReturn, RuntimeError>(RuntimeError::Token(e))
            &&& after == before
            &&& after_bs.blocks() == bs.blocks()
        },
        Ok(hook) => exists|notice: Result<TransferIntermediate, RuntimeError>|
            #[trigger] notified(
                after_runtime,
                bs,
                with_token(before, mid),
                hook,
                asked,
                notice,
                after,
                after_bs,
            ) && match notice {
                Err(e) => r == Err::<TransferReturn, RuntimeError>(e),
                Ok(t) => {
                    &&& r is Ok
                    &&& transfer_reported(after.token, t.from, t.to, r->Ok_0)
                    &&& r->Ok_0.recipient_data@ == t.recipient_data@
                },
            },
    }
}

/// What a transfer on an allowance leaves once the token has answered, as
/// `transfer_completed` says for a transfer.
pub open spec fn transfer_from_completed<BS: Blockstore, R: Runtime>(
    after_runtime: &R,
    bs: BS,
    before: FactoryLedger,
    accepted: Result<ReceiverHook<TransferIntermediate>, TokenError>,
    mid: TokenLedger,
    asked: Option<RootRequest>,
    r: Result<TransferFromReturn, RuntimeError>,
    after: FactoryLedger,
    after_bs: &BS,
) -> bool {
    match accepted {
        Err(e) => {
            &&& asked is None
            &&& r == Err::<TransferFromReturn, RuntimeError>(RuntimeError::Token(e))
            &&& after == before
            &&& after_bs.blocks() == bs.blocks()
        },
        Ok(hook) => exists|notice: Result<TransferIntermediate, RuntimeError>|
            #[trigger] notified(
                after_runtime,
                bs,
                with_token(before, mid),
                hook,
                asked,
                notice,
                after,
                after_bs,
            ) && match notice {
                Err(e) => r == Err::<TransferFromReturn, RuntimeError>(e),
                Ok(t) => {
                    &&& r is Ok
                    &&& transfer_from_reported(after.token, t.operator, t.from, t.to, r->Ok_0)
                    &&& r->Ok_0.recipient_data@ == t.recipient_data@
                },
            },
    }
}

/// What a mint leaves once the token has answered, as
/// `transfer_completed` says for a transfer: the balance and the supply
/// reported are those of the state in memory after the second phase.
pub open spec fn mint_completed<BS: Blockstore, R: Runtime>(
    after_runtime: &R,
    bs: BS,
    before: FactoryLedger,
    accepted: Result<ReceiverHook<TransferIntermediate>, TokenError>,
    mid: TokenLedger,
    asked: Option<RootRequest>,
    r: Result<MintReturn, RuntimeError>,
    after: FactoryLedger,
    after_bs: &BS,
) -> bool {
    match accepted {
        Err(e) => {
            &&& asked is None
            &&& r == Err::<MintReturn, RuntimeError>(RuntimeError::Token(e))
            &&& after == before
            &&& after_bs.blocks() == bs.blocks()
        },
        Ok(hook) => exists|notice: Result<TransferIntermediate, RuntimeError>|
            #[trigger] notified(
                after_runtime,
                bs,
                with_token(before, mid),
                hook,
                asked,
                notice,
                after,
                after_bs,
            ) && match notice {
                Err(e) => r == Err::<MintReturn, RuntimeError>(e),
                Ok(t) => {
                    &&& r is Ok
                    &&& r->Ok_0.balance == token_balance(after.token, t.to)
                    &&& r->Ok_0.supply == after.token.supply
                    &&& r->Ok_0.recipient_data@ == t.recipient_data@
                },
            },
    }
}

/// `runtime` answers that `caller` made the call being served.
pub open spec fn called_by<R: Runtime>(runtime: &R, caller: ActorID) -> bool {
    call_ensures(R::caller, (runtime,), caller)
}

/// What a transfer by the caller to `to` leaves: the token answers as
/// `transfer_outcome` says for the caller that `runtime` names, with the
/// operator data given and no token data, and the rest goes as
/// `transfer_completed` says.
pub open spec fn transfer_served<BS: Blockstore, R: Runtime>(
    runtime: &R,
    after_runtime: &R,
    bs: BS,
    to: &Address,
    before: FactoryLedger,
    amount: u128,
    operator_data: Seq<u8>,
    asked: Option<RootRequest>,
    r: Result<TransferReturn, RuntimeError>,
    after: FactoryLedger,
    after_bs: &BS,
) -> bool {
    exists|
        caller: ActorID,
        accepted: Result<ReceiverHook<TransferIntermediate>, TokenError>,
        mid: TokenLedger,
    |
        {
            &&& called_by(runtime, caller)
            &&& #[trigger] crate::token::transfer_outcome(
                runtime,
                &Address::Id(caller),
                to,
                before.token,
                before.granularity,
                amount,
                operator_data,
                Seq::<u8>::empty(),
                accepted,
                mid,
            )
            &&& transfer_completed(
                after_runtime,
                bs,
                before,
                accepted,
                mid,
                asked,
                r,
                after,
                after_bs,
            )
        }
}

/// What a transfer from `from` to `to` on the allowance of the caller
/// leaves, as `transfer_served` says for a transfer.
pub open spec fn transfer_from_served<BS: Blockstore, R: Runtime>(
    runtime: &R,
    after_runtime: &R,
    bs: BS,
    from: &Address,
    to: &Address,
    before: FactoryLedger,
    amount: u128,
    operator_data: Seq<u8>,
    asked: Option<RootRequest>,
    r: Result<TransferFromReturn, RuntimeError>,
    after: FactoryLedger,
    after_bs: &BS,
) -> bool {
    exists|
        caller: ActorID,
        accepted: Result<ReceiverHook<TransferIntermediate>, TokenError>,
        mid: TokenLedger,
    |
        {
            &&& called_by(runtime, caller)
            &&& #[trigger] crate::token::transfer_from_outcome(
                runtime,
                &Address::Id(caller),
                from,
                to,
                before.token,
                before.granularity,
                amount,
                operator_data,
                Seq::<u8>::empty(),
                accepted,
                mid,
            )
            &&& transfer_from_completed(
                after_runtime,
                bs,
                before,
                accepted,
                mid,
                asked,
                r,
                after,
                after_bs,
            )
        }
}

/// What a permitted mint to `initial_owner` leaves: the token answers as
/// `mint_outcome` says for the caller as operator, with the operator data
/// given and no token data, and the rest goes as `mint_completed` says.
pub open spec fn mint_accepted<BS: Blockstore, R: Runtime>(
    runtime: &R,
    after_runtime: &R,
    bs: BS,
    caller: ActorID,
    initial_owner: &Address,
    before: FactoryLedger,
    amount: u128,
    operator_data: Seq<u8>,
    asked: Option<RootRequest>,
    r: Result<MintReturn, RuntimeError>,
    after: FactoryLedger,
    after_bs: &BS,
) -> bool {
    exists|accepted: Result<ReceiverHook<TransferIntermediate>, TokenError>, mid: TokenLedger|
        {
            &&& #[trigger] crate::token::mint_outcome(
                runtime,
                &Address::Id(caller),
                initial_owner,
                before.token,
                before.granularity,
                amount,
                operator_data,
                Seq::<u8>::empty(),
                accepted,
                mid,
            )
            &&& mint_completed(
                after_runtime,
                bs,
                before,
                accepted,
                mid,
                asked,
                r,
                after,
                after_bs,
            )
        }
}

/// What a mint to `initial_owner` leaves. A caller that is not permitted
/// is refused, and nothing changes: once minting is disabled that is every
/// caller. For a caller that is permitted, what `mint_accepted` says.
pub open spec fn mint_served<BS: Blockstore, R: Runtime>(
    runtime: &R,
    after_runtime: &R,
    bs: BS,
    initial_owner: &Address,
    before: FactoryLedger,
    amount: u128,
    operator_data: Seq<u8>,
    asked: Option<RootRequest>,
    r: Result<MintReturn, RuntimeError>,
    after: FactoryLedger,
    after_bs: &BS,
) -> bool {
    exists|caller: ActorID|
        #![trigger called_by(runtime, caller)]
        called_by(runtime, caller) && match minting_permitted(before.minter, caller) {
            Err(e) => asked is None && r == Err::<MintReturn, RuntimeError>(e) && after == before
                && after_bs.blocks() == bs.blocks(),
            Ok(_) => mint_accepted(
                runtime,
                after_runtime,
                bs,
                caller,
                initial_owner,
                before,
                amount,
                operator_data,
                asked,
                r,
                after,
                after_bs,
            ),
        }
}

/// What giving up minting leaves: a caller that is not permitted is
/// refused, and nothing changes; else the state has no minter any more, and
/// is otherwise as it was.
pub open spec fn mint_disabled<R: Runtime>(
    runtime: &R,
    before: FactoryLedger,
    r: Result<(), RuntimeError>,
    after: FactoryLedger,
) -> bool {
    exists|caller: ActorID|
        #![trigger called_by(runtime, caller)]
        called_by(runtime, caller) && match minting_permitted(before.minter, caller) {
            Err(e) => r == Err::<(), RuntimeError>(e) && after == before,
            Ok(_) => r is Ok && after == (FactoryLedger {
                token: before.token,
                name: before.name,
                symbol: before.symbol,
                granularity: before.granularity,
                minter: None,
            }),
        }
}

/// What raising an allowance on the caller's tokens leaves, as
/// `increase_outcome` says for the caller as owner.
pub open spec fn increase_served<R: Runtime>(
    runtime: &R,
    operator: &Address,
    increase: u128,
    before: TokenLedger,
    r: Result<u128, RuntimeError>,
    after: TokenLedger,
) -> bool {
    exists|caller: ActorID, inner: Result<u128, TokenError>|
        {
            &&& called_by(runtime, caller)
            &&& #[trigger] crate::token::increase_outcome(
                runtime,
                &Address::Id(caller),
                operator,
                before,
                increase,
                inner,
                after,
            )
            &&& r == lifted(inner)
        }
}

/// What lowering an allowance on the caller's tokens leaves, as
/// `decrease_outcome` says for the caller as owner.
pub open spec fn decrease_served<R: Runtime>(
    runtime: &R,
    operator: &Address,
    decrease: u128,
    before: TokenLedger,
    r: Result<u128, RuntimeError>,
    after: TokenLedger,
) -> bool {
    exists|caller: ActorID, inner: Result<u128, TokenError>|
        {
            &&& called_by(runtime, caller)
            &&& #[trigger] crate::token::decrease_outcome(
                runtime,
                &Address::Id(caller),
                operator,
                before,
                decrease,
                inner,
                after,
            )
            &&& r == lifted(inner)
        }
}

/// What revoking an allowance on the caller's tokens leaves, as
/// `revoke_outcome` says for the caller as owner.
pub open spec fn revoke_served<R: Runtime>(
    runtime: &R,
    operator: &Address,
    before: TokenLedger,
    r: Result<(), RuntimeError>,
    after: TokenLedger,
) -> bool {
    exists|caller: ActorID, inner: Result<(), TokenError>|
        {
            &&& called_by(runtime, caller)
            &&& #[trigger] crate::token::revoke_outcome(
                runtime,
                &Address::Id(caller),
                operator,
                before,
                inner,
                after,
            )
            &&& r == lifted(inner)
        }
}

/// What burning tokens of the caller leaves, as `burn_outcome` says for
/// the caller as owner.
pub open spec fn burn_served<R: Runtime>(
    runtime: &R,
    granularity: u64,
    amount: u128,
    before: TokenLedger,
    r: Result<BurnReturn, RuntimeError>,
    after: TokenLedger,
) -> bool {
    exists|caller: ActorID, inner: Result<BurnReturn, TokenError>|
        {
            &&& called_by(runtime, caller)
            &&& #[trigger] crate::token::burn_outcome(
                runtime,
                &Address::Id(caller),
                before,
                granularity,
                amount,
                inner,
                after,
            )
            &&& r == lifted(inner)
        }
}

/// What burning tokens of `owner` on the caller's allowance leaves, as
/// `burn_from_outcome` says for the caller as operator.
pub open spec fn burn_from_served<R: Runtime>(
    runtime: &R,
    owner: &Address,
    granularity: u64,
    amount: u128,
    before: TokenLedger,
    r: Result<BurnFromReturn, RuntimeError>,
    after: TokenLedger,
) -> bool {
    exists|caller: ActorID, inner: Result<BurnFromReturn, TokenError>|
        {
            &&& called_by(runtime, caller)
            &&& #[trigger] crate::token::burn_from_outcome(
                runtime,
                &Address::Id(caller),
                owner,
                before,
                granularity,
                amount,
                inner,
                after,
            )
            &&& r == lifted(inner)
        }
}

/// The balance returned is the one to report for the address.
pub open spec fn balance_served<R: Runtime>(
    runtime: &R,
    address: &Address,
    l: TokenLedger,
    r: Result<u128, RuntimeError>,
) -> bool {
    exists|inner: Result<u128, TokenError>|
        #[trigger] crate::token::balance_reported(runtime, address, l, inner) && r == lifted(inner)
}

/// The allowance returned is the one to report for the two addresses.
pub open spec fn allowance_served<R: Runtime>(
    runtime: &R,
    owner: &Address,
    operator: &Address,
    l: TokenLedger,
    r: Result<u128, RuntimeError>,
) -> bool {
    exists|inner: Result<u128, TokenError>|
        #[trigger] crate::token::allowance_reported(runtime, owner, operator, l, inner) && r
            == lifted(inner)
}

/// The result of the token as a result of the actor.
pub open spec fn lifted<T>(inner: Result<T, TokenError>) -> Result<T, RuntimeError> {
    match inner {
        Ok(x) => Ok(x),
        Err(e) => Err(RuntimeError::Token(e)),
    }
}

/// Turns a result of the token into a result of the actor.
pub fn lift<T>(inner: Result<T, TokenError>) -> (r: Result<T, RuntimeError>)
    ensures
        r == lifted(inner),
{
    match inner {
        Ok(x) => Ok(x),
        Err(e) => Err(RuntimeError::Token(e)),
    }
}

/// The balances that a transfer reports are those of the ledger `l`.
pub open spec fn transfer_reported(l: TokenLedger, from: ActorID, to: ActorID, ret: TransferReturn) -> bool {
    ret.from_balance == token_balance(l, from) && ret.to_balance == token_balance(l, to)
}

/// The balances and the allowance that a transfer on an allowance reports
/// are those of the ledger `l`.
pub open spec fn transfer_from_reported(
    l: TokenLedger,
    operator: ActorID,
    from: ActorID,
    to: ActorID,
    ret: TransferFromReturn,
) -> bool {
    &&& ret.from_balance == token_balance(l, from)
    &&& ret.to_balance == token_balance(l, to)
    &&& ret.allowance == allowance_between(l, from, operator)
}

/// A fungible token with a minter, with the services it needs.
pub struct FactoryToken<BS: Blockstore, R: Runtime> {
    pub runtime: R,
    pub bs: BS,
    pub state: FactoryTokenState,
}

/// What loading a token leaves, by how loading its state went, as
/// `state_load_outcome` says: a token with the services given and the state
/// that was loaded, or the error.
pub open spec fn token_loaded<BS: Blockstore, R: Runtime>(
    runtime: R,
    bs: BS,
    address: Seq<u8>,
    r: Result<FactoryToken<BS, R>, RuntimeError>,
) -> bool {
    exists|load: Result<FactoryTokenState, RuntimeError>|
        #[trigger] state_load_outcome(&bs, address, load) && match load {
            Ok(state) => {
                &&& r is Ok
                &&& r->Ok_0.valid()
                &&& r->Ok_0.runtime == runtime
                &&& r->Ok_0.bs == bs
                &&& r->Ok_0.state@ == state@
            },
            Err(e) => r is Err && r->Err_0 == e,
        }
}

/// What reconciling the state with the root leaves, by what `runtime`
/// answers when asked for the root, where `known` is the root that the
/// caller last knew. Without an answer the state stays and `NoState` is
/// returned. With the answer `known` the state stays. With any other answer
/// the state is loaded from that root, as `state_load_outcome` says, and
/// becomes the state; where the store cannot be reached, holds nothing
/// there, or holds what is no layout of a state, the state stays and
/// `Deserialization` says which.
pub open spec fn reload_settled<BS: Blockstore, R: Runtime>(
    runtime: &R,
    before: FactoryLedger,
    bs: &BS,
    known: Seq<u8>,
    r: Result<(), RuntimeError>,
    after: FactoryLedger,
) -> bool {
    exists|answer: Result<ContentAddress, ActorError>|
        #[trigger] call_ensures(R::root_cid, (runtime,), answer) && match answer {
            Err(_) => r == Err::<(), RuntimeError>(RuntimeError::NoState) && after == before,
            Ok(current) => if current@ == known {
                r is Ok && after == before
            } else {
                exists|load: Result<FactoryTokenState, RuntimeError>|
                    #[trigger] state_load_outcome(bs, current@, load) && match load {
                        Ok(state) => r is Ok && after == state@,
                        Err(e) => r == Err::<(), RuntimeError>(e) && after == before,
                    }
            },
        }
}

impl<BS: Blockstore, R: Runtime> FactoryToken<BS, R> {
    /// The state is valid and the store keeps its invariant.
    pub open spec fn valid(&self) -> bool {
        self.state.valid() && self.bs.inv()
    }

    /// A new token without supply.
    pub fn new(
        runtime: R,
        bs: BS,
        name: Vec<u8>,
        symbol: Vec<u8>,
        granularity: u64,
        minter: Option<ActorID>,
    ) -> (r: Self)
        requires
            bs.inv(),
        ensures
            r.valid(),
            r.runtime == runtime,
            r.bs == bs,
            r.state@ == (FactoryLedger {
                token: TokenLedger { supply: 0, accounts: Seq::empty() },
                name: name@,
                symbol: symbol@,
                granularity,
                minter,
            }),
    {
        FactoryToken {
            state: FactoryTokenState { token: TokenState::new(), name, symbol, granularity, minter },
            runtime,
            bs,
        }
    }

    /// The address of the account that made the call being served.
    pub fn caller_address(&self) -> (r: Address)
        ensures
            exists|caller: ActorID| #[trigger] called_by(&self.runtime, caller) && r == Address::Id(caller),
    {
        let caller = self.runtime.caller();
        assert(called_by(&self.runtime, caller));
        Address::new_id(caller)
    }

    /// The ledger of the token.
    pub fn token(&self) -> (r: &TokenState)
        ensures
            r == &self.state.token,
    {
        &self.state.token
    }

    /// The token whose state was flushed to `cid`, as `token_loaded` says.
    pub fn load(runtime: R, bs: BS, cid: &ContentAddress) -> (r: Result<Self, RuntimeError>)
        requires
            bs.inv(),
        ensures
            token_loaded(runtime, bs, cid@, r),
    {
        let load = FactoryTokenState::load(&bs, cid);
        let ghost load0 = load;
        let r = match load {
            Ok(state) => Ok(FactoryToken { state, runtime, bs }),
            Err(e) => Err(e),
        };
        assert(state_load_outcome(&bs, cid@, load0));
        r
    }

    /// Flushes the state to the store and returns its content address, as
    /// `saved` says. A state that was flushed is loaded back unchanged from
    /// that address.
    pub fn save(&mut self) -> (r: Result<ContentAddress, RuntimeError>)
        requires
            old(self).valid(),
        ensures
            final(self).valid(),
            final(self).state@ == old(self).state@,
            final(self).runtime == old(self).runtime,
            saved(old(self).bs, old(self).state@, r, final(self).bs.blocks()),
            r is Ok ==> factory_loaded(final(self).bs.blocks(), r->Ok_0@) == Ok::<
                FactoryLedger,
                StorageError,
            >(old(self).state@),
    {
        let bytes = self.state.to_bytes();
        match put_block(&mut self.bs, bytes.as_slice()) {
            Ok(address) => Ok(address),
            Err(e) => Err(RuntimeError::Serialization(e)),
        }
    }

    /// Reconciles the state with the root of the actor, as `reload_settled`
    /// says: asks the runtime for the root once; if the root is no longer
    /// `initial_cid`, the state is replaced by the one flushed to the root.
    /// On an error the state stays.
    pub fn reload(&mut self, initial_cid: &ContentAddress) -> (r: Result<(), RuntimeError>)
        requires
            old(self).valid(),
        ensures
            final(self).valid(),
            final(self).runtime == old(self).runtime,
            final(self).bs == old(self).bs,
            reload_settled(
                &old(self).runtime,
                old(self).state@,
                &old(self).bs,
                initial_cid@,
                r,
                final(self).state@,
            ),
    {
        let new_cid = match self.runtime.root_cid() {
            Ok(c) => c,
            Err(_) => {
                return Err(RuntimeError::NoState);
            },
        };
        if !new_cid.same(initial_cid) {
            let load = FactoryTokenState::load(&self.bs, &new_cid);
            let ghost load0 = load;
            let r = match load {
                Ok(new_state) => {
                    self.state = new_state;
                    Ok(())
                },
                Err(e) => Err(e),
            };
            assert(state_load_outcome(&old(self).bs, new_cid@, load0));
            return r;
        }
        Ok(())
    }

    /// The second phase of an operation that moved tokens, as `notified`
    /// says: flushes the state, makes it the root, calls the hook exactly
    /// once, and reconciles the state with the root, which the receiver may
    /// have changed. Returns the intermediate with the data that the receiver
    /// returned. The in-memory state changes only by that reconciliation: a
    /// failure of the hook does not undo the operation. The runtime is as it
    /// was if it was not asked to set the root, and else as its `set_root`
    /// left it.
    pub fn notify(&mut self, hook: ReceiverHook<TransferIntermediate>) -> (r: Result<
        TransferIntermediate,
        RuntimeError,
    >)
        requires
            old(self).valid(),
            hook.valid(),
            hook.pending(),
        ensures
            final(self).valid(),
            exists|asked: Option<RootRequest>|
                {
                    &&& #[trigger] notified(
                        &final(self).runtime,
                        old(self).bs,
                        old(self).state@,
                        hook,
                        asked,
                        r,
                        final(self).state@,
                        &final(self).bs,
                    )
                    &&& match asked {
                        None => final(self).runtime == old(self).runtime,
                        Some(request) => exists|a: &mut R|
                            {
                                &&& *a == old(self).runtime
                                &&& #[trigger] call_ensures(
                                    R::set_root,
                                    (a, &request.address),
                                    request.answer,
                                )
                                &&& final(self).runtime == *final(a)
                            },
                    }
                },
    {
        let mut owed = hook;
        let flush = self.save();
        let ghost flush0 = flush;
        let cid = match flush {
            Ok(c) => c,
            Err(e) => {
                let r = Err(e);
                assert(notified(
                    &self.runtime,
                    old(self).bs,
                    old(self).state@,
                    hook,
                    None,
                    r,
                    self.state@,
                    &self.bs,
                ));
                return r;
            },
        };
        let rooted = set_root_of(&mut self.runtime, &cid);
        let ghost asked = Some(RootRequest { address: cid, answer: rooted });
        match rooted {
            Ok(_) => {},
            Err(e) => {
                let r = Err(RuntimeError::StateUpdate(e));
                assert(saved(old(self).bs, old(self).state@, flush0, self.bs.blocks()));
                assert(notified(
                    &self.runtime,
                    old(self).bs,
                    old(self).state@,
                    hook,
                    asked,
                    r,
                    self.state@,
                    &self.bs,
                ));
                return r;
            },
        }
        let answer = owed.call(&self.runtime);
        let ghost rooted_runtime = self.runtime;
        let r = match answer {
            Err(e) => Err(RuntimeError::Receiver(e)),
            Ok(t) => {
                let reload = self.reload(&cid);
                let ghost reload0 = reload;
                assert(reload_settled(
                    &rooted_runtime,
                    old(self).state@,
                    &self.bs,
                    cid@,
                    reload0,
                    self.state@,
                ));
                match reload {
                    Ok(_) => Ok(t),
                    Err(e) => Err(e),
                }
            },
        };
        assert(hook_answered(
            &self.runtime,
            old(self).state@,
            &self.bs,
            cid,
            hook,
            r,
            self.state@,
        ));
        assert(saved(old(self).bs, old(self).state@, flush0, self.bs.blocks()));
        assert(notified(
            &self.runtime,
            old(self).bs,
            old(self).state@,
            hook,
            asked,
            r,
            self.state@,
            &self.bs,
        ));
        r
    }

    /// Mints tokens, as `mint_served` says: only the minter may, and nobody
    /// once minting is disabled, whoever calls. The runtime is as it was if
    /// it was not asked to set the root, and else as its `set_root` left it.
    pub fn mint(&mut self, params: MintParams) -> (r: Result<MintReturn, RuntimeError>)
        requires
            old(self).valid(),
        ensures
            final(self).valid(),
            old(self).state@.minter is None ==> r is Err && r->Err_0 is MintingDisabled,
            exists|asked: Option<RootRequest>|
                {
                    &&& #[trigger] mint_served(
                        &old(self).runtime,
                        &final(self).runtime,
                        old(self).bs,
                        &params.initial_owner,
                        old(self).state@,
                        params.amount,
                        params.operator_data@,
                        asked,
                        r,
                        final(self).state@,
                        &final(self).bs,
                    )
                    &&& match asked {
                        None => final(self).runtime == old(self).runtime,
                        Some(request) => exists|a: &mut R|
                            {
                                &&& *a == old(self).runtime
                                &&& #[trigger] call_ensures(
                                    R::set_root,
                                    (a, &request.address),
                                    request.answer,
                                )
                                &&& final(self).runtime == *final(a)
                            },
                    }
                },
    {
        let caller_id = self.runtime.caller();
        assert(called_by(&old(self).runtime, caller_id));
        match check_minter(self.state.minter, caller_id) {
            Ok(_) => {},
            Err(e) => {
                let r = Err(e);
                assert(mint_served(
                    &old(self).runtime,
                    &self.runtime,
                    old(self).bs,
                    &params.initial_owner,
                    old(self).state@,
                    params.amount,
                    params.operator_data@,
                    None,
                    r,
                    self.state@,
                    &self.bs,
                ));
                return r;
            },
        }
        let caller = Address::new_id(caller_id);
        let accepted = crate::token::mint(
            &mut self.state.token,
            &self.runtime,
            self.state.granularity,
            &caller,
            &params.initial_owner,
            params.amount,
            params.operator_data,
            Vec::new(),
        );
        let ghost accepted0 = accepted;
        let ghost mid = self.state.token@;
        assert(self.state@ == with_token(old(self).state@, mid));
        match accepted {
            Err(e) => {
                let r = Err(RuntimeError::Token(e));
                assert(crate::token::mint_outcome(
                    &old(self).runtime,
                    &Address::Id(caller_id),
                    &params.initial_owner,
                    old(self).state@.token,
                    old(self).state@.granularity,
                    params.amount,
                    params.operator_data@,
                    Seq::<u8>::empty(),
                    accepted0,
                    mid,
                ));
                assert(mint_accepted(
                    &old(self).runtime,
                    &self.runtime,
                    old(self).bs,
                    caller_id,
                    &params.initial_owner,
                    old(self).state@,
                    params.amount,
                    params.operator_data@,
                    None,
                    r,
                    self.state@,
                    &self.bs,
                ));
                assert(mint_served(
                    &old(self).runtime,
                    &self.runtime,
                    old(self).bs,
                    &params.initial_owner,
                    old(self).state@,
                    params.amount,
                    params.operator_data@,
                    None,
                    r,
                    self.state@,
                    &self.bs,
                ));
                r
            },
            Ok(hook) => {
                let notice = self.notify(hook);
                let ghost asked = choose|asked: Option<RootRequest>|
                    {
                        &&& #[trigger] notified(
                            &self.runtime,
                            old(self).bs,
                            with_token(old(self).state@, mid),
                            hook,
                            asked,
                            notice,
                            self.state@,
                            &self.bs,
                        )
                        &&& match asked {
                            None => self.runtime == old(self).runtime,
                            Some(request) => exists|a: &mut R|
                                {
                                    &&& *a == old(self).runtime
                                    &&& #[trigger] call_ensures(
                                        R::set_root,
                                        (a, &request.address),
                                        request.answer,
                                    )
                                    &&& self.runtime == *final(a)
                                },
                        }
                    };
                let r = match notice {
                    Err(e) => Err(e),
                    Ok(t) => Ok(crate::token::mint_return(&self.state.token, t)),
                };
                assert(crate::token::mint_outcome(
                    &old(self).runtime,
                    &Address::Id(caller_id),
                    &params.initial_owner,
                    old(self).state@.token,
                    old(self).state@.granularity,
                    params.amount,
                    params.operator_data@,
                    Seq::<u8>::empty(),
                    accepted0,
                    mid,
                ));
                assert(mint_accepted(
                    &old(self).runtime,
                    &self.runtime,
                    old(self).bs,
                    caller_id,
                    &params.initial_owner,
                    old(self).state@,
                    params.amount,
                    params.operator_data@,
                    asked,
                    r,
                    self.state@,
                    &self.bs,
                ));
                assert(mint_served(
                    &old(self).runtime,
                    &self.runtime,
                    old(self).bs,
                    &params.initial_owner,
                    old(self).state@,
                    params.amount,
                    params.operator_data@,
                    asked,
                    r,
                    self.state@,
                    &self.bs,
                ));
                r
            },
        }
    }

    /// Disables minting for good, as `mint_disabled` says. Only the minter
    /// may do so; once done, every call fails with `MintingDisabled`.
    pub fn disable_mint(&mut self) -> (r: Result<(), RuntimeError>)
        requires
            old(self).valid(),
        ensures
            final(self).valid(),
            final(self).runtime == old(self).runtime,
            final(self).bs == old(self).bs,
            old(self).state@.minter is None ==> r is Err && r->Err_0 is MintingDisabled,
            mint_disabled(&old(self).runtime, old(self).state@, r, final(self).state@),
    {
        let caller_id = self.runtime.caller();
        assert(called_by(&old(self).runtime, caller_id));
        match check_minter(self.state.minter, caller_id) {
            Ok(_) => {},
            Err(e) => {
                return Err(e);
            },
        }
        self.state.minter = None;
        Ok(())
    }

    /// The UTF-8 bytes of the name.
    pub fn name(&self) -> (r: Vec<u8>)
        ensures
            r@ == self.state@.name,
    {
        self.state.name.clone()
    }

    /// The UTF-8 bytes of the symbol.
    pub fn symbol(&self) -> (r: Vec<u8>)
        ensures
            r@ == self.state@.symbol,
    {
        self.state.symbol.clone()
    }

    /// The smallest unit that can be moved.
    pub fn granularity(&self) -> (r: u64)
        ensures
            r == self.state@.granularity,
    {
        self.state.granularity
    }

    /// The number of tokens in circulation.
    pub fn total_supply(&self) -> (r: u128)
        ensures
            r == self.state.token@.supply,
    {
        self.state.token.total_supply()
    }

    /// The balance of the account behind an address; zero where it has no account.
    pub fn balance_of(&self, params: &Address) -> (r: Result<u128, RuntimeError>)
        requires
            self.valid(),
        ensures
            balance_served(&self.runtime, params, self.state.token@, r),
    {
        let inner = crate::token::balance_of(&self.state.token, &self.runtime, params);
        lift(inner)
    }

    /// Transfers tokens of the caller, as `transfer_served` says: moves
    /// the amount, then flushes, notifies the receiver, reconciles, and
    /// reports the balances as they are after all that. The runtime is as it
    /// was if it was not asked to set the root, and else as its `set_root`
    /// left it.
    pub fn transfer(&mut self, params: TransferParams) -> (r: Result<TransferReturn, RuntimeError>)
        requires
            old(self).valid(),
        ensures
            final(self).valid(),
            exists|asked: Option<RootRequest>|
                {
                    &&& #[trigger] transfer_served(
                        &old(self).runtime,
                        &final(self).runtime,
                        old(self).bs,
                        &params.to,
                        old(self).state@,
                        params.amount,
                        params.operator_data@,
                        asked,
                        r,
                        final(self).state@,
                        &final(self).bs,
                    )
                    &&& match asked {
                        None => final(self).runtime == old(self).runtime,
                        Some(request) => exists|a: &mut R|
                            {
                                &&& *a == old(self).runtime
                                &&& #[trigger] call_ensures(
                                    R::set_root,
                                    (a, &request.address),
                                    request.answer,
                                )
                                &&& final(self).runtime == *final(a)
                            },
                    }
                },
    {
        let caller_id = self.runtime.caller();
        assert(called_by(&old(self).runtime, caller_id));
        let caller = Address::new_id(caller_id);
        let accepted = crate::token::transfer(
            &mut self.state.token,
            &self.runtime,
            self.state.granularity,
            &caller,
            &params.to,
            params.amount,
            params.operator_data,
            Vec::new(),
        );
        let ghost accepted0 = accepted;
        let ghost mid = self.state.token@;
        assert(self.state@ == with_token(old(self).state@, mid));
        match accepted {
            Err(e) => {
                let r = Err(RuntimeError::Token(e));
                assert(crate::token::transfer_outcome(
                    &old(self).runtime,
                    &Address::Id(caller_id),
                    &params.to,
                    old(self).state@.token,
                    old(self).state@.granularity,
                    params.amount,
                    params.operator_data@,
                    Seq::<u8>::empty(),
                    accepted0,
                    mid,
                ));
                assert(transfer_served(
                    &old(self).runtime,
                    &self.runtime,
                    old(self).bs,
                    &params.to,
                    old(self).state@,
                    params.amount,
                    params.operator_data@,
                    None,
                    r,
                    self.state@,
                    &self.bs,
                ));
                r
            },
            Ok(hook) => {
                let notice = self.notify(hook);
                let ghost asked = choose|asked: Option<RootRequest>|
                    {
                        &&& #[trigger] notified(
                            &self.runtime,
                            old(self).bs,
                            with_token(old(self).state@, mid),
                            hook,
                            asked,
                            notice,
                            self.state@,
                            &self.bs,
                        )
                        &&& match asked {
                            None => self.runtime == old(self).runtime,
                            Some(request) => exists|a: &mut R|
                                {
                                    &&& *a == old(self).runtime
                                    &&& #[trigger] call_ensures(
                                        R::set_root,
                                        (a, &request.address),
                                        request.answer,
                                    )
                                    &&& self.runtime == *final(a)
                                },
                        }
                    };
                let r = match notice {
                    Err(e) => Err(e),
                    Ok(t) => Ok(crate::token::transfer_return(&self.state.token, t)),
                };
                assert(crate::token::transfer_outcome(
                    &old(self).runtime,
                    &Address::Id(caller_id),
                    &params.to,
                    old(self).state@.token,
                    old(self).state@.granularity,
                    params.amount,
                    params.operator_data@,
                    Seq::<u8>::empty(),
                    accepted0,
                    mid,
                ));
                assert(transfer_served(
                    &old(self).runtime,
                    &self.runtime,
                    old(self).bs,
                    &params.to,
                    old(self).state@,
                    params.amount,
                    params.operator_data@,
                    asked,
                    r,
                    self.state@,
                    &self.bs,
                ));
                r
            },
        }
    }

    /// Transfers tokens on the caller's allowance, by the same protocol as
    /// `transfer`, as `transfer_from_served` says.
    pub fn transfer_from(&mut self, params: TransferFromParams) -> (r: Result<TransferFromReturn, RuntimeError>)
        requires
            old(self).valid(),
        ensures
            final(self).valid(),
            exists|asked: Option<RootRequest>|
                {
                    &&& #[trigger] transfer_from_served(
                        &old(self).runtime,
                        &final(self).runtime,
                        old(self).bs,
                        &params.from,
                        &params.to,
                        old(self).state@,
                        params.amount,
                        params.operator_data@,
                        asked,
                        r,
                        final(self).state@,
                        &final(self).bs,
                    )
                    &&& match asked {
                        None => final(self).runtime == old(self).runtime,
                        Some(request) => exists|a: &mut R|
                            {
                                &&& *a == old(self).runtime
                                &&& #[trigger] call_ensures(
                                    R::set_root,
                                    (a, &request.address),
                                    request.answer,
                                )
                                &&& final(self).runtime == *final(a)
                            },
                    }
                },
    {
        let caller_id = self.runtime.caller();
        assert(called_by(&old(self).runtime, caller_id));
        let caller = Address::new_id(caller_id);
        let accepted = crate::token::transfer_from(
            &mut self.state.token,
            &self.runtime,
            self.state.granularity,
            &caller,
            &params.from,
            &params.to,
            params.amount,
            params.operator_data,
            Vec::new(),
        );
        let ghost accepted0 = accepted;
        let ghost mid = self.state.token@;
        assert(self.state@ == with_token(old(self).state@, mid));
        match accepted {
            Err(e) => {
                let r = Err(RuntimeError::Token(e));
                assert(crate::token::transfer_from_outcome(
                    &old(self).runtime,
                    &Address::Id(caller_id),
                    &params.from,
                    &params.to,
                    old(self).state@.token,
                    old(self).state@.granularity,
                    params.amount,
                    params.operator_data@,
                    Seq::<u8>::empty(),
                    accepted0,
                    mid,
                ));
                assert(transfer_from_served(
                    &old(self).runtime,
                    &self.runtime,
                    old(self).bs,
                    &params.from,
                    &params.to,
                    old(self).state@,
                    params.amount,
                    params.operator_data@,
                    None,
                    r,
                    self.state@,
                    &self.bs,
                ));
                r
            },
            Ok(hook) => {
                let notice = self.notify(hook);
                let ghost asked = choose|asked: Option<RootRequest>|
                    {
                        &&& #[trigger] notified(
                            &self.runtime,
                            old(self).bs,
                            with_token(old(self).state@, mid),
                            hook,
                            asked,
                            notice,
                            self.state@,
                            &self.bs,
                        )
                        &&& match asked {
                            None => self.runtime == old(self).runtime,
                            Some(request) => exists|a: &mut R|
                                {
                                    &&& *a == old(self).runtime
                                    &&& #[trigger] call_ensures(
                                        R::set_root,
                                        (a, &request.address),
                                        request.answer,
                                    )
                                    &&& self.runtime == *final(a)
                                },
                        }
                    };
                let r = match notice {
                    Err(e) => Err(e),
                    Ok(t) => Ok(crate::token::transfer_from_return(&self.state.token, t)),
                };
                assert(crate::token::transfer_from_outcome(
                    &old(self).runtime,
                    &Address::Id(caller_id),
                    &params.from,
                    &params.to,
                    old(self).state@.token,
                    old(self).state@.granularity,
                    params.amount,
                    params.operator_data@,
                    Seq::<u8>::empty(),
                    accepted0,
                    mid,
                ));
                assert(transfer_from_served(
                    &old(self).runtime,
                    &self.runtime,
                    old(self).bs,
                    &params.from,
                    &params.to,
                    old(self).state@,
                    params.amount,
                    params.operator_data@,
                    asked,
                    r,
                    self.state@,
                    &self.bs,
                ));
                r
            },
        }
    }

    /// Raises what an operator may spend of the caller's tokens.
    pub fn increase_allowance(&mut self, params: IncreaseAllowanceParams) -> (r: Result<
        u128,
        RuntimeError,
    >)
        requires
            old(self).valid(),
        ensures
            final(self).valid(),
            final(self).bs == old(self).bs,
            final(self).runtime == old(self).runtime,
            final(self).state@ == with_token(old(self).state@, final(self).state.token@),
            increase_served(
                &old(self).runtime,
                &params.operator,
                params.increase,
                old(self).state.token@,
                r,
                final(self).state.token@,
            ),
    {
        let caller = self.runtime.caller();
        let owner = Address::new_id(caller);
        let inner = crate::token::increase_allowance(
            &mut self.state.token,
            &self.runtime,
            &owner,
            &params.operator,
            params.increase,
        );
        let ghost copy = inner;
        assert(crate::token::increase_outcome(
            &old(self).runtime,
            &Address::Id(caller),
            &params.operator,
            old(self).state.token@,
            params.increase,
            copy,
            self.state.token@,
        ));
        lift(inner)
    }

    /// Lowers what an operator may spend of the caller's tokens.
    pub fn decrease_allowance(&mut self, params: DecreaseAllowanceParams) -> (r: Result<
        u128,
        RuntimeError,
    >)
        requires
            old(self).valid(),
        ensures
            final(self).valid(),
            final(self).bs == old(self).bs,
            final(self).runtime == old(self).runtime,
            final(self).state@ == with_token(old(self).state@, final(self).state.token@),
            decrease_served(
                &old(self).runtime,
                &params.operator,
                params.decrease,
                old(self).state.token@,
                r,
                final(self).state.token@,
            ),
    {
        let caller = self.runtime.caller();
        let owner = Address::new_id(caller);
        let inner = crate::token::decrease_allowance(
            &mut self.state.token,
            &self.runtime,
            &owner,
            &params.operator,
            params.decrease,
        );
        let ghost copy = inner;
        assert(crate::token::decrease_outcome(
            &old(self).runtime,
            &Address::Id(caller),
            &params.operator,
            old(self).state.token@,
            params.decrease,
            copy,
            self.state.token@,
        ));
        lift(inner)
    }

    /// Removes what an operator may spend of the caller's tokens. Where
    /// the operator has no account, or no allowance, nothing changes.
    pub fn revoke_allowance(&mut self, params: RevokeAllowanceParams) -> (r: Result<(), RuntimeError>)
        requires
            old(self).valid(),
        ensures
            final(self).valid(),
            final(self).bs == old(self).bs,
            final(self).runtime == old(self).runtime,
            final(self).state@ == with_token(old(self).state@, final(self).state.token@),
            revoke_served(
                &old(self).runtime,
                &params.operator,
                old(self).state.token@,
                r,
                final(self).state.token@,
            ),
    {
        let caller = self.runtime.caller();
        let owner = Address::new_id(caller);
        let inner = crate::token::revoke_allowance(
            &mut self.state.token,
            &self.runtime,
            &owner,
            &params.operator,
        );
        let ghost copy = inner;
        assert(crate::token::revoke_outcome(
            &old(self).runtime,
            &Address::Id(caller),
            &params.operator,
            old(self).state.token@,
            copy,
            self.state.token@,
        ));
        lift(inner)
    }

    /// What an operator may still spend of the tokens of an owner.
    pub fn allowance(&self, params: &GetAllowanceParams) -> (r: Result<u128, RuntimeError>)
        requires
            self.valid(),
        ensures
            allowance_served(&self.runtime, &params.owner, &params.operator, self.state.token@, r),
    {
        let inner = crate::token::allowance(
            &self.state.token,
            &self.runtime,
            &params.owner,
            &params.operator,
        );
        lift(inner)
    }

    /// Burns tokens of the caller.
    pub fn burn(&mut self, params: BurnParams) -> (r: Result<BurnReturn, RuntimeError>)
        requires
            old(self).valid(),
        ensures
            final(self).valid(),
            final(self).bs == old(self).bs,
            final(self).runtime == old(self).runtime,
            final(self).state@ == with_token(old(self).state@, final(self).state.token@),
            burn_served(
                &old(self).runtime,
                old(self).state.granularity,
                params.amount,
                old(self).state.token@,
                r,
                final(self).state.token@,
            ),
    {
        let caller_id = self.runtime.caller();
        let caller = Address::new_id(caller_id);
        let inner = crate::token::burn(
            &mut self.state.token,
            &self.runtime,
            self.state.granularity,
            &caller,
            params.amount,
        );
        let ghost copy = inner;
        assert(crate::token::burn_outcome(
            &old(self).runtime,
            &Address::Id(caller_id),
            old(self).state.token@,
            old(self).state.granularity,
            params.amount,
            copy,
            self.state.token@,
        ));
        lift(inner)
    }

    /// Burns tokens of an owner on the caller's allowance.
    pub fn burn_from(&mut self, params: BurnFromParams) -> (r: Result<BurnFromReturn, RuntimeError>)
        requires
            old(self).valid(),
        ensures
            final(self).valid(),
            final(self).bs == old(self).bs,
            final(self).runtime == old(self).runtime,
            final(self).state@ == with_token(old(self).state@, final(self).state.token@),
            burn_from_served(
                &old(self).runtime,
                &params.owner,
                old(self).state.granularity,
                params.amount,
                old(self).state.token@,
                r,
                final(self).state.token@,
            ),
    {
        let caller_id = self.runtime.caller();
        let caller = Address::new_id(caller_id);
        let inner = crate::token::burn_from(
            &mut self.state.token,
            &self.runtime,
            self.state.granularity,
            &caller,
            &params.owner,
            params.amount,
        );
        let ghost copy = inner;
        assert(crate::token::burn_from_outcome(
            &old(self).runtime,
            &Address::Id(caller_id),
            &params.owner,
            old(self).state.token@,
            old(self).state.granularity,
            params.amount,
            copy,
            self.state.token@,
        ));
        lift(inner)
    }
}

/// The state of a token that was just constructed.
pub open spec fn initial_state(params: ConstructorParams, minter: ActorID) -> FactoryLedger {
    FactoryLedger {
        token: TokenLedger { supply: 0, accounts: Seq::empty() },
        name: params.name@,
        symbol: params.symbol@,
        granularity: params.granularity,
        minter: Some(minter),
    }
}

/// What constructing a token leaves, by what `runtime` answers for the
/// minter's address and what the store answers to the flush of the initial
/// state, where `asked` is what the runtime was asked to make its root, if
/// it was asked, with its answer: `Messaging` with the error of the
/// resolution, after which nothing is flushed; the error of the flush, after
/// which the root is not set; `StateUpdate` with the error of the runtime;
/// else a token with the initial state, which the store holds under the
/// address of that state, the address that was made the root.
pub open spec fn constructed<BS: Blockstore, R: Runtime>(
    runtime: &R,
    bs: BS,
    params: ConstructorParams,
    asked: Option<RootRequest>,
    r: Result<FactoryToken<BS, R>, RuntimeError>,
) -> bool {
    exists|minter: Result<ActorID, MessagingError>|
        #[trigger] call_ensures(R::resolve_id, (runtime, &params.minter), minter) && match minter {
            Err(e) => asked is None && r is Err && r->Err_0 == RuntimeError::Messaging(e),
            Ok(id) => exists|flush: Result<ContentAddress, RuntimeError>, blocks_after: Map<Seq<u8>, Seq<u8>>|
                #[trigger] saved(bs, initial_state(params, id), flush, blocks_after) && match flush {
                    Err(e) => asked is None && r is Err && r->Err_0 == e,
                    Ok(cid) => asked is Some && asked->Some_0.address == cid
                        && match asked->Some_0.answer {
                        Err(e) => r is Err && r->Err_0 == RuntimeError::StateUpdate(e),
                        Ok(_) => {
                            &&& r is Ok
                            &&& r->Ok_0.valid()
                            &&& r->Ok_0.state@ == initial_state(params, id)
                            &&& cid@ == address_of(r->Ok_0.state@)
                            &&& r->Ok_0.bs.blocks() == blocks_after
                            &&& factory_loaded(r->Ok_0.bs.blocks(), cid@) == Ok::<
                                FactoryLedger,
                                StorageError,
                            >(r->Ok_0.state@)
                        },
                    },
                },
        }
}

/// Constructs a token, as `constructed` says: resolves the minter,
/// flushes the initial state and makes it the root of the actor. The
/// runtime of the token is the one given, as its `set_root` left it.
pub fn construct_token<BS: Blockstore, R: Runtime>(runtime: R, bs: BS, params: ConstructorParams) -> (r:
    Result<FactoryToken<BS, R>, RuntimeError>)
    requires
        bs.inv(),
    ensures
        exists|asked: Option<RootRequest>|
            {
                &&& #[trigger] constructed(&runtime, bs, params, asked, r)
                &&& r is Ok ==> asked is Some && exists|a: &mut R|
                    {
                        &&& *a == runtime
                        &&& #[trigger] call_ensures(
                            R::set_root,
                            (a, &asked->Some_0.address),
                            asked->Some_0.answer,
                        )
                        &&& r->Ok_0.runtime == *final(a)
                    }
            },
{
    let minter = runtime.resolve_id(&params.minter);
    let id = match minter {
        Ok(id) => id,
        Err(e) => {
            let r = Err(RuntimeError::Messaging(e));
            assert(constructed(&runtime, bs, params, None, r));
            return r;
        },
    };
    let ghost initial = initial_state(params, id);
    let mut token = FactoryToken::new(
        runtime,
        bs,
        params.name,
        params.symbol,
        params.granularity,
        Some(id),
    );
    let flush = token.save();
    let ghost flush0 = flush;
    let ghost blocks_after = token.bs.blocks();
    let cid = match flush {
        Ok(c) => c,
        Err(e) => {
            let r = Err(e);
            assert(saved(bs, initial, flush0, blocks_after));
            assert(constructed(&runtime, bs, params, None, r));
            return r;
        },
    };
    let rooted = set_root_of(&mut token.runtime, &cid);
    let ghost asked = Some(RootRequest { address: cid, answer: rooted });
    let r = match rooted {
        Ok(_) => Ok(token),
        Err(e) => Err(RuntimeError::StateUpdate(e)),
    };
    assert(saved(bs, initial, flush0, blocks_after));
    assert(constructed(&runtime, bs, params, asked, r));
    r
}

} // verus!
