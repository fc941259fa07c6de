//! The method-dispatch surface: which operation a method number names, and
//! what serving a request does to the ledger.

use crate::actor::{set_root_of, Actor, ActorError, RootRequest, RootUpdateError, Runtime};
use crate::address::{ActorID, Address, ContentAddress};
use crate::dispatch::{method_number_of, Hasher, MethodNameErr, MethodResolver, CONSTRUCTOR_METHOD_NUMBER};
use crate::factory::{
    allowance_served, balance_served, burn_served, decrease_served, exit_code_of_messaging,
    exit_code_of_receiver, increase_served, messaging_exit_code, mint_disabled,
    receiver_exit_code,
    revoke_served, transfer_from_served, transfer_served, with_token, FactoryLedger,
    FactoryToken, RuntimeError, USR_FORBIDDEN, USR_ILLEGAL_ARGUMENT, USR_ILLEGAL_STATE,
    USR_NOT_FOUND, USR_READ_ONLY, USR_SERIALIZATION,
};
use crate::messaging::Messaging;
use crate::nft::{
    approve_for_owner_outcome, approve_outcome, commit_outcome, flushed_by, mint_completed,
    mint_outcome,
    revoke_for_all_outcome, revoke_outcome, transfer_completed, transfer_outcome,
    ApproveForAllParams, ApproveParams, MintIntermediate, MintReturn, NFTError,
    RevokeForAllParams, RevokeParams, TransferFromParams, TransferIntermediate, TransferParams,
    TransferReturn, NFT,
};
use crate::nft_state::{
    applied, empty_ledger, ledger_address, loaded, views, Action, Authority, LedgerView, NFTState,
    StateError, TokenID,
};
use crate::receiver::ReceiverHook;
use crate::store::{Blockstore, StorageError};
use crate::token::{
    BurnReturn, DecreaseAllowanceParams, GetAllowanceParams, IncreaseAllowanceParams,
    RevokeAllowanceParams,
};
use vstd::prelude::*;
use vstd::string::StringSliceAdditionalSpecFns;

verus! {

/// The operations of the fungible token interface.
#[derive(Clone, Copy, Debug, PartialEq, Eq)]
pub enum Frc46Method {
    Name,
    Symbol,
    TotalSupply,
    BalanceOf,
    Allowance,
    IncreaseAllowance,
    DecreaseAllowance,
    RevokeAllowance,
    Burn,
    TransferFrom,
    Transfer,
}

/// The name `name` has the method number `number`.
pub open spec fn numbered<T: Hasher>(hasher: T, name: &str, number: u64) -> bool {
    method_number_of(hasher, name.spec_bytes()) == Ok::<u64, MethodNameErr>(number)
}

/// The operation of the fungible token interface that a method number
/// names: the first, in the order of the interface, whose name has that
/// number. A number that names none is no method of the interface.
pub open spec fn frc46_routed<T: Hasher>(hasher: T, number: u64) -> Option<Frc46Method> {
    if numbered(hasher, "Name", number) {
        Some(Frc46Method::Name)
    } else if numbered(hasher, "Symbol", number) {
        Some(Frc46Method::Symbol)
    } else if numbered(hasher, "TotalSupply", number) {
        Some(Frc46Method::TotalSupply)
    } else if numbered(hasher, "BalanceOf", number) {
        Some(Frc46Method::BalanceOf)
    } else if numbered(hasher, "Allowance", number) {
        Some(Frc46Method::Allowance)
    } else if numbered(hasher, "IncreaseAllowance", number) {
        Some(Frc46Method::IncreaseAllowance)
    } else if numbered(hasher, "DecreaseAllowance", number) {
        Some(Frc46Method::DecreaseAllowance)
    } else if numbered(hasher, "RevokeAllowance", number) {
        Some(Frc46Method::RevokeAllowance)
    } else if numbered(hasher, "Burn", number) {
        Some(Frc46Method::Burn)
    } else if numbered(hasher, "TransferFrom", number) {
        Some(Frc46Method::TransferFrom)
    } else if numbered(hasher, "Transfer", number) {
        Some(Frc46Method::Transfer)
    } else {
        None
    }
}

/// Whether `name` has the method number `number`.
pub fn names<T: Hasher>(resolver: &MethodResolver<T>, name: &str, number: u64) -> (r: bool)
    ensures
        r == numbered(resolver.hasher, name, number),
{
    match resolver.method_number(name) {
        Ok(n) => n == number,
        Err(_) => false,
    }
}

/// The operation of the fungible token interface that a method number
/// names; `None` for a number that names none.
pub fn frc46_method<T: Hasher>(resolver: &MethodResolver<T>, method_num: u64) -> (r: Option<
    Frc46Method,
>)
    ensures
        r == frc46_routed(resolver.hasher, method_num),
{
    if names(resolver, "Name", method_num) {
        Some(Frc46Method::Name)
    } else if names(resolver, "Symbol", method_num) {
        Some(Frc46Method::Symbol)
    } else if names(resolver, "TotalSupply", method_num) {
        Some(Frc46Method::TotalSupply)
    } else if names(resolver, "BalanceOf", method_num) {
        Some(Frc46Method::BalanceOf)
    } else if names(resolver, "Allowance", method_num) {
        Some(Frc46Method::Allowance)
    } else if names(resolver, "IncreaseAllowance", method_num) {
        Some(Frc46Method::IncreaseAllowance)
    } else if names(resolver, "DecreaseAllowance", method_num) {
        Some(Frc46Method::DecreaseAllowance)
    } else if names(resolver, "RevokeAllowance", method_num) {
        Some(Frc46Method::RevokeAllowance)
    } else if names(resolver, "Burn", method_num) {
        Some(Frc46Method::Burn)
    } else if names(resolver, "TransferFrom", method_num) {
        Some(Frc46Method::TransferFrom)
    } else if names(resolver, "Transfer", method_num) {
        Some(Frc46Method::Transfer)
    } else {
        None
    }
}

/// A request to the fungible token interface, with its parameters.
#[derive(Debug)]
pub enum Frc46Request {
    Name,
    Symbol,
    TotalSupply,
    BalanceOf(Address),
    Allowance(GetAllowanceParams),
    IncreaseAllowance(IncreaseAllowanceParams),
    DecreaseAllowance(DecreaseAllowanceParams),
    RevokeAllowance(RevokeAllowanceParams),
    Burn(crate::token::BurnParams),
    TransferFrom(crate::token::TransferFromParams),
    Transfer(crate::token::TransferParams),
}

/// What the fungible token interface returns for a request.
#[derive(Debug)]
pub enum Frc46Return {
    Name(Vec<u8>),
    Symbol(Vec<u8>),
    TotalSupply(u128),
    Balance(u128),
    Allowance(u128),
    Burn(BurnReturn),
    TransferFrom(crate::token::TransferFromReturn),
    Transfer(crate::token::TransferReturn),
    /// The request returns no data.
    NoData,
}

/// The operation that a request asks for.
pub open spec fn method_of(request: Frc46Request) -> Frc46Method {
    match request {
        Frc46Request::Name => Frc46Method::Name,
        Frc46Request::Symbol => Frc46Method::Symbol,
        Frc46Request::TotalSupply => Frc46Method::TotalSupply,
        Frc46Request::BalanceOf(_) => Frc46Method::BalanceOf,
        Frc46Request::Allowance(_) => Frc46Method::Allowance,
        Frc46Request::IncreaseAllowance(_) => Frc46Method::IncreaseAllowance,
        Frc46Request::DecreaseAllowance(_) => Frc46Method::DecreaseAllowance,
        Frc46Request::RevokeAllowance(_) => Frc46Method::RevokeAllowance,
        Frc46Request::Burn(_) => Frc46Method::Burn,
        Frc46Request::TransferFrom(_) => Frc46Method::TransferFrom,
        Frc46Request::Transfer(_) => Frc46Method::Transfer,
    }
}

/// Whether the operation only reads the ledger.
pub open spec fn reads_only(method: Frc46Method) -> bool {
    match method {
        Frc46Method::Name | Frc46Method::Symbol | Frc46Method::TotalSupply | Frc46Method::BalanceOf | Frc46Method::Allowance => true,
        _ => false,
    }
}

/// The kind of answer that fits an operation.
pub open spec fn answers(method: Frc46Method, ret: Frc46Return) -> bool {
    match method {
        Frc46Method::Name => ret is Name,
        Frc46Method::Symbol => ret is Symbol,
        Frc46Method::TotalSupply => ret is TotalSupply,
        Frc46Method::BalanceOf => ret is Balance,
        Frc46Method::Allowance => ret is Allowance,
        Frc46Method::IncreaseAllowance => ret is Allowance,
        Frc46Method::DecreaseAllowance => ret is Allowance,
        Frc46Method::RevokeAllowance => ret is NoData,
        Frc46Method::Burn => ret is Burn,
        Frc46Method::TransferFrom => ret is TransferFrom,
        Frc46Method::Transfer => ret is Transfer,
    }
}

/// The answer to an operation that only reads, from its result.
pub open spec fn read<T>(
    inner: Result<T, RuntimeError>,
    answer: spec_fn(T) -> Frc46Return,
    r: Result<Frc46Return, RuntimeError>,
) -> bool {
    match inner {
        Ok(x) => r == Ok::<Frc46Return, RuntimeError>(answer(x)),
        Err(e) => r == Err::<Frc46Return, RuntimeError>(e),
    }
}

/// Whether the operation is followed by a call of `flush_state`: it
/// changes an allowance or burns tokens.
pub open spec fn flushes(method: Frc46Method) -> bool {
    match method {
        Frc46Method::IncreaseAllowance | Frc46Method::DecreaseAllowance | Frc46Method::RevokeAllowance | Frc46Method::Burn => true,
        _ => false,
    }
}

/// What an operation that changes an allowance or burns tokens leaves
/// before the state is flushed: `mid` is the state, which differs from the
/// one before in the ledger only, as the operation of the token says, and
/// `answer` is the error of the operation or the answer to return.
pub open spec fn frc46_changed<BS: Blockstore, R: Runtime>(
    request: Frc46Request,
    before: FactoryToken<BS, R>,
    answer: Result<Frc46Return, RuntimeError>,
    mid: FactoryLedger,
) -> bool {
    &&& mid == with_token(before.state@, mid.token)
    &&& match request {
        Frc46Request::IncreaseAllowance(params) => exists|inner: Result<u128, RuntimeError>|
            #[trigger] increase_served(
                &before.runtime,
                &params.operator,
                params.increase,
                before.state.token@,
                inner,
                mid.token,
            ) && read(inner, |x: u128| Frc46Return::Allowance(x), answer),
        Frc46Request::DecreaseAllowance(params) => exists|inner: Result<u128, RuntimeError>|
            #[trigger] decrease_served(
                &before.runtime,
                &params.operator,
                params.decrease,
                before.state.token@,
                inner,
                mid.token,
            ) && read(inner, |x: u128| Frc46Return::Allowance(x), answer),
        Frc46Request::RevokeAllowance(params) => exists|inner: Result<(), RuntimeError>|
            #[trigger] revoke_served(
                &before.runtime,
                &params.operator,
                before.state.token@,
                inner,
                mid.token,
            ) && read(inner, |x: ()| Frc46Return::NoData, answer),
        Frc46Request::Burn(params) => exists|inner: Result<BurnReturn, RuntimeError>|
            #[trigger] burn_served(
                &before.runtime,
                before.state.granularity,
                params.amount,
                before.state.token@,
                inner,
                mid.token,
            ) && read(inner, |x: BurnReturn| Frc46Return::Burn(x), answer),
        _ => false,
    }
}

/// What serving a request leaves, for the operations that are not
/// followed by a call of `flush_state`, by the operation of the token that
/// the request names. An operation that only reads leaves the token as it
/// is. A transfer flushes by itself, before it calls the receiver hook.
/// `asked` is what the runtime was asked to make its root, if it was asked,
/// with its answer.
pub open spec fn frc46_served<BS: Blockstore, R: Runtime>(
    request: Frc46Request,
    before: FactoryToken<BS, R>,
    asked: Option<RootRequest>,
    r: Result<Frc46Return, RuntimeError>,
    after: FactoryToken<BS, R>,
) -> bool {
    match request {
        Frc46Request::Name => after == before && asked is None && r is Ok && r->Ok_0 is Name && r->Ok_0->Name_0@
            == before.state@.name,
        Frc46Request::Symbol => after == before && asked is None && r is Ok && r->Ok_0 is Symbol
            && r->Ok_0->Symbol_0@ == before.state@.symbol,
        Frc46Request::TotalSupply => after == before && asked is None && r == Ok::<Frc46Return, RuntimeError>(
            Frc46Return::TotalSupply(before.state@.token.supply),
        ),
        Frc46Request::BalanceOf(address) => after == before && asked is None && exists|
            inner: Result<u128, RuntimeError>,
        |
            #[trigger] balance_served(&before.runtime, &address, before.state.token@, inner)
                && read(inner, |x: u128| Frc46Return::Balance(x), r),
        Frc46Request::Allowance(params) => after == before && asked is None && exists|
            inner: Result<u128, RuntimeError>,
        |
            #[trigger] allowance_served(
                &before.runtime,
                &params.owner,
                &params.operator,
                before.state.token@,
                inner,
            ) && read(inner, |x: u128| Frc46Return::Allowance(x), r),
        Frc46Request::TransferFrom(params) => exists|
            inner: Result<crate::token::TransferFromReturn, RuntimeError>,
        |
            #[trigger] transfer_from_served(
                &before.runtime,
                &after.runtime,
                before.bs,
                &params.from,
                &params.to,
                before.state@,
                params.amount,
                params.operator_data@,
                asked,
                inner,
                after.state@,
                &after.bs,
            ) && read(inner, |x: crate::token::TransferFromReturn| Frc46Return::TransferFrom(x), r),
        Frc46Request::Transfer(params) => exists|
            inner: Result<crate::token::TransferReturn, RuntimeError>,
        |
            #[trigger] transfer_served(
                &before.runtime,
                &after.runtime,
                before.bs,
                &params.to,
                before.state@,
                params.amount,
                params.operator_data@,
                asked,
                inner,
                after.state@,
                &after.bs,
            ) && read(inner, |x: crate::token::TransferReturn| Frc46Return::Transfer(x), r),
        _ => true,
    }
}

/// The second half of serving an operation that changes the ledger:
/// where the operation succeeded, calls `flush_state` once and returns the
/// answer unless flushing failed; where it failed, returns its error.
fn after_change<BS: Blockstore, R: Runtime, F>(
    token: &mut FactoryToken<BS, R>,
    answer: Result<Frc46Return, RuntimeError>,
    flush_state: F,
) -> (r: Result<Frc46Return, RuntimeError>) where
    F: FnOnce(&mut FactoryToken<BS, R>) -> Result<(), RuntimeError>,

    requires
        old(token).valid(),
        forall|t: &mut FactoryToken<BS, R>| t.valid() ==> call_requires(flush_state, (t,)),
        forall|t: &mut FactoryToken<BS, R>, out: Result<(), RuntimeError>|
            t.valid() && call_ensures(flush_state, (t,), out) ==> final(t).valid(),
    ensures
        final(token).valid(),
        answer is Err ==> r == answer && *final(token) == *old(token),
        answer is Ok ==> exists|t: &mut FactoryToken<BS, R>, out: Result<(), RuntimeError>|
            {
                &&& *t == *old(token)
                &&& #[trigger] call_ensures(flush_state, (t,), out)
                &&& *final(token) == *final(t)
                &&& match out {
                    Ok(_) => r == answer,
                    Err(e) => r == Err::<Frc46Return, RuntimeError>(e),
                }
            },
{
    match answer {
        Err(e) => Err(e),
        Ok(ret) => match flush_state(token) {
            Ok(_) => Ok(ret),
            Err(e) => Err(e),
        },
    }
}

/// Serves a request to the fungible token interface.
///
/// An operation that is not followed by a flush is served as
/// `frc46_served` says. An operation that changes an allowance or burns
/// tokens goes as `frc46_changed` says; if it fails its error is returned
/// and nothing more happens; else `flush_state` is called once on the token,
/// the token is as that call left it, and the answer is returned unless
/// flushing failed.
pub fn frc46_invoke<BS: Blockstore, R: Runtime, F>(
    request: Frc46Request,
    token: &mut FactoryToken<BS, R>,
    flush_state: F,
) -> (r: Result<Frc46Return, RuntimeError>) where
    F: FnOnce(&mut FactoryToken<BS, R>) -> Result<(), RuntimeError>,

    requires
        old(token).valid(),
        forall|t: &mut FactoryToken<BS, R>| t.valid() ==> call_requires(flush_state, (t,)),
        forall|t: &mut FactoryToken<BS, R>, out: Result<(), RuntimeError>|
            t.valid() && call_ensures(flush_state, (t,), out) ==> final(t).valid(),
    ensures
        final(token).valid(),
        !flushes(method_of(request)) ==> exists|asked: Option<RootRequest>|
            {
                &&& #[trigger] frc46_served(request, *old(token), asked, r, *final(token))
                &&& match asked {
                    None => final(token).runtime == old(token).runtime,
                    Some(asking) => exists|a: &mut R|
                        {
                            &&& *a == old(token).runtime
                            &&& #[trigger] call_ensures(
                                R::set_root,
                                (a, &asking.address),
                                asking.answer,
                            )
                            &&& final(token).runtime == *final(a)
                        },
                }
            },
        flushes(method_of(request)) ==> exists|
            answer: Result<Frc46Return, RuntimeError>,
            mid: FactoryLedger,
        |
            {
                &&& #[trigger] frc46_changed(request, *old(token), answer, mid)
                &&& answer is Err ==> {
                    &&& r == answer
                    &&& final(token).state@ == mid
                    &&& final(token).bs == old(token).bs
                    &&& final(token).runtime == old(token).runtime
                }
                &&& answer is Ok ==> exists|t: &mut FactoryToken<BS, R>, out: Result<(), RuntimeError>|
                    {
                        &&& t.valid()
                        &&& t.state@ == mid
                        &&& t.bs == old(token).bs
                        &&& t.runtime == old(token).runtime
                        &&& #[trigger] call_ensures(flush_state, (t,), out)
                        &&& *final(token) == *final(t)
                        &&& match out {
                            Ok(_) => r == answer,
                            Err(e) => r == Err::<Frc46Return, RuntimeError>(e),
                        }
                    }
            },
{
    match request {
        Frc46Request::Name => {
            let r = Ok(Frc46Return::Name(token.name()));
            assert(frc46_served(request, *old(token), None, r, *token));
            r
        },
        Frc46Request::Symbol => {
            let r = Ok(Frc46Return::Symbol(token.symbol()));
            assert(frc46_served(request, *old(token), None, r, *token));
            r
        },
        Frc46Request::TotalSupply => {
            let r = Ok(Frc46Return::TotalSupply(token.total_supply()));
            assert(frc46_served(request, *old(token), None, r, *token));
            r
        },
        Frc46Request::BalanceOf(params) => {
            let inner = token.balance_of(&params);
            let ghost inner0 = inner;
            let r = match inner {
                Ok(x) => Ok(Frc46Return::Balance(x)),
                Err(e) => Err(e),
            };
            assert(balance_served(&old(token).runtime, &params, old(token).state.token@, inner0));
            assert(frc46_served(request, *old(token), None, r, *token));
            r
        },
        Frc46Request::Allowance(params) => {
            let inner = token.allowance(&params);
            let ghost inner0 = inner;
            let r = match inner {
                Ok(x) => Ok(Frc46Return::Allowance(x)),
                Err(e) => Err(e),
            };
            assert(allowance_served(
                &old(token).runtime,
                &params.owner,
                &params.operator,
                old(token).state.token@,
                inner0,
            ));
            assert(frc46_served(request, *old(token), None, r, *token));
            r
        },
        Frc46Request::IncreaseAllowance(params) => {
            let inner = token.increase_allowance(params);
            let answer = match inner {
                Ok(x) => Ok(Frc46Return::Allowance(x)),
                Err(e) => Err(e),
            };
            assert(frc46_changed(request, *old(token), answer, token.state@));
            after_change(token, answer, flush_state)
        },
        Frc46Request::DecreaseAllowance(params) => {
            let inner = token.decrease_allowance(params);
            let answer = match inner {
                Ok(x) => Ok(Frc46Return::Allowance(x)),
                Err(e) => Err(e),
            };
            assert(frc46_changed(request, *old(token), answer, token.state@));
            after_change(token, answer, flush_state)
        },
        Frc46Request::RevokeAllowance(params) => {
            let inner = token.revoke_allowance(params);
            let answer = match inner {
                Ok(_) => Ok(Frc46Return::NoData),
                Err(e) => Err(e),
            };
            assert(frc46_changed(request, *old(token), answer, token.state@));
            after_change(token, answer, flush_state)
        },
        Frc46Request::Burn(params) => {
            let inner = token.burn(params);
            let answer = match inner {
                Ok(x) => Ok(Frc46Return::Burn(x)),
                Err(e) => Err(e),
            };
            assert(frc46_changed(request, *old(token), answer, token.state@));
            after_change(token, answer, flush_state)
        },
        Frc46Request::TransferFrom(params) => {
            let inner = token.transfer_from(params);
            let ghost inner0 = inner;
            let ghost asked = choose|asked: Option<RootRequest>|
                {
                    &&& #[trigger] transfer_from_served(
                        &old(token).runtime,
                        &token.runtime,
                        old(token).bs,
                        &params.from,
                        &params.to,
                        old(token).state@,
                        params.amount,
                        params.operator_data@,
                        asked,
                        inner0,
                        token.state@,
                        &token.bs,
                    )
                    &&& match asked {
                        None => token.runtime == old(token).runtime,
                        Some(asking) => exists|a: &mut R|
                            {
                                &&& *a == old(token).runtime
                                &&& #[trigger] call_ensures(
                                    R::set_root,
                                    (a, &asking.address),
                                    asking.answer,
                                )
                                &&& token.runtime == *final(a)
                            },
                    }
                };
            let r = match inner {
                Ok(x) => Ok(Frc46Return::TransferFrom(x)),
                Err(e) => Err(e),
            };
            assert(frc46_served(request, *old(token), asked, r, *token));
            r
        },
        Frc46Request::Transfer(params) => {
            let inner = token.transfer(params);
            let ghost inner0 = inner;
            let ghost asked = choose|asked: Option<RootRequest>|
                {
                    &&& #[trigger] transfer_served(
                        &old(token).runtime,
                        &token.runtime,
                        old(token).bs,
                        &params.to,
                        old(token).state@,
                        params.amount,
                        params.operator_data@,
                        asked,
                        inner0,
                        token.state@,
                        &token.bs,
                    )
                    &&& match asked {
                        None => token.runtime == old(token).runtime,
                        Some(asking) => exists|a: &mut R|
                            {
                                &&& *a == old(token).runtime
                                &&& #[trigger] call_ensures(
                                    R::set_root,
                                    (a, &asking.address),
                                    asking.answer,
                                )
                                &&& token.runtime == *final(a)
                            },
                    }
                };
            let r = match inner {
                Ok(x) => Ok(Frc46Return::Transfer(x)),
                Err(e) => Err(e),
            };
            assert(frc46_served(request, *old(token), asked, r, *token));
            r
        },
    }
}

/// The operations of the token actor: its constructor, the operations of
/// the fungible token interface, and the two of the minter.
#[derive(Clone, Copy, Debug, PartialEq, Eq)]
pub enum TokenActorMethod {
    Constructor,
    Frc46(Frc46Method),
    Mint,
    DisableMint,
}

/// The operation of the token actor that a method number names: the
/// constructor where the number is the constructor's; else the operation of
/// the fungible token interface that it names, if any; else `Mint` or
/// `DisableMint` where it is the number of that name. A number that names
/// none is no method.
pub open spec fn token_actor_routed<T: Hasher>(hasher: T, number: u64) -> Option<TokenActorMethod> {
    if numbered(hasher, "Constructor", number) {
        Some(TokenActorMethod::Constructor)
    } else {
        match frc46_routed(hasher, number) {
            Some(method) => Some(TokenActorMethod::Frc46(method)),
            None => if numbered(hasher, "Mint", number) {
                Some(TokenActorMethod::Mint)
            } else if numbered(hasher, "DisableMint", number) {
                Some(TokenActorMethod::DisableMint)
            } else {
                None
            },
        }
    }
}

/// The operation of the token actor that a method number names; `None`
/// for a number that names none.
pub fn token_actor_method<T: Hasher>(resolver: &MethodResolver<T>, method_num: u64) -> (r: Option<
    TokenActorMethod,
>)
    ensures
        r == token_actor_routed(resolver.hasher, method_num),
{
    if names(resolver, "Constructor", method_num) {
        return Some(TokenActorMethod::Constructor);
    }
    match frc46_method(resolver, method_num) {
        Some(method) => Some(TokenActorMethod::Frc46(method)),
        None => if names(resolver, "Mint", method_num) {
            Some(TokenActorMethod::Mint)
        } else if names(resolver, "DisableMint", method_num) {
            Some(TokenActorMethod::DisableMint)
        } else {
            None
        },
    }
}

/// Serves `DisableMint`: gives up minting as `mint_disabled` says, where
/// `mid` is the state that this leaves; if it is refused the error is
/// returned and nothing more happens; else `flush_state` is called once on
/// the token, the token is as that call left it, and its result is returned.
pub fn disable_mint_invoke<BS: Blockstore, R: Runtime, F>(
    token: &mut FactoryToken<BS, R>,
    flush_state: F,
) -> (r: Result<(), RuntimeError>) where
    F: FnOnce(&mut FactoryToken<BS, R>) -> Result<(), RuntimeError>,

    requires
        old(token).valid(),
        forall|t: &mut FactoryToken<BS, R>| t.valid() ==> call_requires(flush_state, (t,)),
        forall|t: &mut FactoryToken<BS, R>, out: Result<(), RuntimeError>|
            t.valid() && call_ensures(flush_state, (t,), out) ==> final(t).valid(),
    ensures
        final(token).valid(),
        exists|inner: Result<(), RuntimeError>, mid: FactoryLedger|
            {
                &&& #[trigger] mint_disabled(&old(token).runtime, old(token).state@, inner, mid)
                &&& inner is Err ==> {
                    &&& r == inner
                    &&& final(token).state@ == mid
                    &&& final(token).bs == old(token).bs
                    &&& final(token).runtime == old(token).runtime
                }
                &&& inner is Ok ==> exists|t: &mut FactoryToken<BS, R>|
                    {
                        &&& t.valid()
                        &&& t.state@ == mid
                        &&& t.bs == old(token).bs
                        &&& t.runtime == old(token).runtime
                        &&& #[trigger] call_ensures(flush_state, (t,), r)
                        &&& *final(token) == *final(t)
                    }
            },
{
    let inner = token.disable_mint();
    assert(mint_disabled(&old(token).runtime, old(token).state@, inner, token.state@));
    match inner {
        Err(e) => Err(e),
        Ok(_) => flush_state(token),
    }
}

/// The operations of a non-fungible collection.
#[derive(Clone, Copy, Debug, PartialEq, Eq)]
pub enum NftMethod {
    Constructor,
    TotalSupply,
    Mint,
    Burn,
    Approve,
    Revoke,
    ApproveForAll,
    RevokeForAll,
    Transfer,
    TransferFrom,
}

/// The operation of a collection that a method number names: number one
/// is the constructor; else the first, in the order of the interface, whose
/// name has that number. A number that names none is no method.
pub open spec fn nft_routed<T: Hasher>(hasher: T, number: u64) -> Option<NftMethod> {
    if number == CONSTRUCTOR_METHOD_NUMBER {
        Some(NftMethod::Constructor)
    } else if numbered(hasher, "TotalSupply", number) {
        Some(NftMethod::TotalSupply)
    } else if numbered(hasher, "Mint", number) {
        Some(NftMethod::Mint)
    } else if numbered(hasher, "Burn", number) {
        Some(NftMethod::Burn)
    } else if numbered(hasher, "Approve", number) {
        Some(NftMethod::Approve)
    } else if numbered(hasher, "Revoke", number) {
        Some(NftMethod::Revoke)
    } else if numbered(hasher, "ApproveForAll", number) {
        Some(NftMethod::ApproveForAll)
    } else if numbered(hasher, "RevokeForAll", number) {
        Some(NftMethod::RevokeForAll)
    } else if numbered(hasher, "Transfer", number) {
        Some(NftMethod::Transfer)
    } else if numbered(hasher, "TransferFrom", number) {
        Some(NftMethod::TransferFrom)
    } else {
        None
    }
}

/// The operation of a collection that a method number names; `None` for a
/// number that names none.
pub fn nft_method<T: Hasher>(resolver: &MethodResolver<T>, method_num: u64) -> (r: Option<NftMethod>)
    ensures
        r == nft_routed(resolver.hasher, method_num),
{
    if method_num == CONSTRUCTOR_METHOD_NUMBER {
        Some(NftMethod::Constructor)
    } else if names(resolver, "TotalSupply", method_num) {
        Some(NftMethod::TotalSupply)
    } else if names(resolver, "Mint", method_num) {
        Some(NftMethod::Mint)
    } else if names(resolver, "Burn", method_num) {
        Some(NftMethod::Burn)
    } else if names(resolver, "Approve", method_num) {
        Some(NftMethod::Approve)
    } else if names(resolver, "Revoke", method_num) {
        Some(NftMethod::Revoke)
    } else if names(resolver, "ApproveForAll", method_num) {
        Some(NftMethod::ApproveForAll)
    } else if names(resolver, "RevokeForAll", method_num) {
        Some(NftMethod::RevokeForAll)
    } else if names(resolver, "Transfer", method_num) {
        Some(NftMethod::Transfer)
    } else if names(resolver, "TransferFrom", method_num) {
        Some(NftMethod::TransferFrom)
    } else {
        None
    }
}

/// The parameters of `Mint`: the metadata of each token to mint.
#[derive(Debug)]
pub struct MintParams {
    pub metadata: Vec<Vec<u8>>,
}

/// A request to a collection, with its parameters.
#[derive(Debug)]
pub enum NftRequest {
    TotalSupply,
    Mint(MintParams),
    Burn(Vec<TokenID>),
    Approve(ApproveParams),
    Revoke(RevokeParams),
    ApproveForAll(ApproveForAllParams),
    RevokeForAll(RevokeForAllParams),
    Transfer(TransferParams),
    TransferFrom(TransferFromParams),
}

/// What a collection returns for a request.
#[derive(Debug)]
pub enum NftReturn {
    TotalSupply(u64),
    Mint(MintReturn),
    Transfer(TransferReturn),
    /// The request returns no data.
    NoData,
}

/// The address of the account with the given id.
pub fn caller_address(caller: ActorID) -> (r: Address)
    ensures
        r == Address::Id(caller),
{
    Address::new_id(caller)
}

/// What constructing a collection leaves, by what the store answers to
/// the flush of the empty ledger, where `asked` is what the actor was asked
/// to make its root, if it was asked, with its answer: the error of the
/// flush, after which the actor is not asked; the error of the actor; else
/// the state of a new collection, which the store holds under the address
/// of the empty ledger, the address that was made the root.
pub open spec fn collection_constructed<BS: Blockstore>(
    bs: BS,
    asked: Option<RootRequest>,
    r: Result<NFTState, NFTError>,
    blocks_after: Map<Seq<u8>, Seq<u8>>,
) -> bool {
    exists|flushed: Result<ContentAddress, NFTError>|
        #[trigger] flushed_by(bs, empty_ledger(), flushed, blocks_after) && match flushed {
            Err(e) => asked is None && r is Err && r->Err_0 == e,
            Ok(cid) => asked is Some && asked->Some_0.address == cid
                && match asked->Some_0.answer {
                Err(e) => r is Err && r->Err_0 == NFTError::Actor(ActorError::RootUpdate(e)),
                Ok(_) => r is Ok && r->Ok_0.valid() && r->Ok_0@ == empty_ledger(),
            },
        }
}

/// Constructs a collection, as `collection_constructed` says: flushes the
/// state of a new collection and makes it the root of the actor. The actor
/// is as it was if it was not asked, and else as its `set_root` left it.
pub fn constructor<BS: Blockstore, A: Actor>(bs: &mut BS, actor: &mut A) -> (r: Result<
    NFTState,
    NFTError,
>)
    requires
        old(bs).inv(),
    ensures
        final(bs).inv(),
        exists|asked: Option<RootRequest>|
            {
                &&& #[trigger] collection_constructed(*old(bs), asked, r, final(bs).blocks())
                &&& match asked {
                    None => *final(actor) == *old(actor),
                    Some(asking) => exists|a: &mut A|
                        {
                            &&& *a == *old(actor)
                            &&& #[trigger] call_ensures(
                                A::set_root,
                                (a, &asking.address),
                                asking.answer,
                            )
                            &&& *final(actor) == *final(a)
                        },
                }
            },
{
    let nft_state = NFTState::new();
    let stored = nft_state.save(bs);
    let flushed = match stored {
        Ok(address) => Ok(address),
        Err(e) => Err(NFTError::Storage(e)),
    };
    let ghost flushed0 = flushed;
    assert(flushed_by(*old(bs), empty_ledger(), flushed0, bs.blocks()));
    let state_cid = match flushed {
        Ok(c) => c,
        Err(e) => {
            let r = Err(e);
            assert(collection_constructed(*old(bs), None, r, bs.blocks()));
            return r;
        },
    };
    let rooted = set_root_of(actor, &state_cid);
    let ghost asked = Some(RootRequest { address: state_cid, answer: rooted });
    let r = match rooted {
        Ok(_) => Ok(nft_state),
        Err(e) => Err(NFTError::Actor(ActorError::RootUpdate(e))),
    };
    assert(flushed_by(*old(bs), empty_ledger(), flushed0, bs.blocks()));
    assert(collection_constructed(*old(bs), asked, r, bs.blocks()));
    r
}

/// The exit code for a refusal by the state of a collection.
pub open spec fn nft_state_exit_code(e: StateError) -> u32 {
    match e {
        StateError::TokenNotFound(_) => USR_NOT_FOUND,
        StateError::NotOwner { .. } | StateError::NotAuthorized { .. } => USR_FORBIDDEN,
        StateError::InvariantFailed | StateError::Overflow => USR_ILLEGAL_STATE,
    }
}

/// The exit code that the collection's actor leaves with for each kind of
/// error. Errors of the kinds that the fungible token has too get the same
/// code there and here.
pub open spec fn nft_exit_code_of(e: NFTError) -> u32 {
    match e {
        NFTError::NFTState(s) => nft_state_exit_code(s),
        NFTError::Messaging(m) => messaging_exit_code(m),
        NFTError::Actor(ActorError::NoState) => USR_NOT_FOUND,
        NFTError::Actor(ActorError::RootUpdate(RootUpdateError::ActorDeleted)) => USR_ILLEGAL_STATE,
        NFTError::Actor(ActorError::RootUpdate(RootUpdateError::ReadOnly)) => USR_READ_ONLY,
        NFTError::Storage(_) => USR_SERIALIZATION,
        NFTError::Receiver(r) => receiver_exit_code(r),
    }
}

/// No error of a collection is ever reported as success, nor with a code
/// that is reserved for the system.
pub proof fn lemma_nft_exit_codes_are_user_codes(e: NFTError)
    ensures
        USR_ILLEGAL_ARGUMENT <= nft_exit_code_of(e) <= USR_READ_ONLY,
        nft_exit_code_of(e) != crate::messaging::EXIT_OK,
{
}

/// The exit code that the collection's actor leaves with for an error.
pub fn nft_exit_code(error: &NFTError) -> (r: u32)
    ensures
        r == nft_exit_code_of(*error),
{
    match error {
        NFTError::NFTState(s) => match s {
            StateError::TokenNotFound(_) => USR_NOT_FOUND,
            StateError::NotOwner { .. } | StateError::NotAuthorized { .. } => USR_FORBIDDEN,
            StateError::InvariantFailed | StateError::Overflow => USR_ILLEGAL_STATE,
        },
        NFTError::Messaging(m) => exit_code_of_messaging(m),
        NFTError::Actor(a) => match a {
            ActorError::NoState => USR_NOT_FOUND,
            ActorError::RootUpdate(RootUpdateError::ActorDeleted) => USR_ILLEGAL_STATE,
            ActorError::RootUpdate(RootUpdateError::ReadOnly) => USR_READ_ONLY,
        },
        NFTError::Storage(_) => USR_SERIALIZATION,
        NFTError::Receiver(r) => exit_code_of_receiver(r),
    }
}

/// The handles have the same services.
pub open spec fn same_services<BS: Blockstore, MSG: Messaging, A: Actor>(
    a: NFT<BS, MSG, A>,
    b: NFT<BS, MSG, A>,
) -> bool {
    a.bs == b.bs && a.msg == b.msg && a.actor == b.actor
}

/// What is returned for an operation that returns no data, where `mid`
/// is the handle as the operation left it and `inner` its result: its
/// error, and nothing more happens; after its success the state is
/// committed as `commit_outcome` says, and the error of the commit, which
/// undoes nothing, or no data is returned.
pub open spec fn followed<BS: Blockstore, MSG: Messaging, A: Actor>(
    mid: NFT<BS, MSG, A>,
    inner: Result<(), NFTError>,
    asked: Option<RootRequest>,
    r: Result<NftReturn, NFTError>,
    after: NFT<BS, MSG, A>,
) -> bool {
    &&& after.state@ == mid.state@
    &&& match inner {
        Err(e) => asked is None && r == Err::<NftReturn, NFTError>(e),
        Ok(_) => exists|committed: Result<ContentAddress, NFTError>|
            #[trigger] commit_outcome(mid, asked, committed, after.bs.blocks()) && match committed {
                Ok(_) => r == Ok::<NftReturn, NFTError>(NftReturn::NoData),
                Err(e) => r == Err::<NftReturn, NFTError>(e),
            },
    }
}

/// What burning the tokens of `caller` leaves: the ledger after the
/// batch, or its first refusal and nothing changed.
pub open spec fn burn_outcome(
    before: LedgerView,
    caller: ActorID,
    ids: Seq<TokenID>,
    inner: Result<(), NFTError>,
    after: LedgerView,
) -> bool {
    match applied(before, Authority::Owner(caller), Action::Burn, ids) {
        Ok(l) => inner is Ok && after == l,
        Err(e) => inner == Err::<(), NFTError>(NFTError::NFTState(e)) && after == before,
    }
}

/// What the operation that a request names leaves, before anything is
/// committed, for the requests that return no data: `mid` is the ledger
/// and `inner` the result of the operation of the handle on the address of
/// the caller.
pub open spec fn changed<MSG: Messaging>(
    request: NftRequest,
    caller: ActorID,
    msg: &MSG,
    before: LedgerView,
    inner: Result<(), NFTError>,
    mid: LedgerView,
) -> bool {
    match request {
        NftRequest::Burn(ids) => burn_outcome(before, caller, ids@, inner, mid),
        NftRequest::Approve(p) => approve_outcome(
            msg,
            &Address::Id(caller),
            &p.operator,
            before,
            p.token_ids@,
            inner,
            mid,
        ),
        NftRequest::Revoke(p) => revoke_outcome(
            msg,
            &Address::Id(caller),
            &p.operator,
            before,
            p.token_ids@,
            inner,
            mid,
        ),
        NftRequest::ApproveForAll(p) => approve_for_owner_outcome(
            msg,
            &Address::Id(caller),
            &p.operator,
            before,
            inner,
            mid,
        ),
        NftRequest::RevokeForAll(p) => revoke_for_all_outcome(
            msg,
            &Address::Id(caller),
            &p.operator,
            before,
            inner,
            mid,
        ),
        _ => false,
    }
}

/// What serving a request leaves, by the operation of the handle that the
/// request names.
///
/// `TotalSupply` answers with the supply and changes nothing. `Burn`
/// burns the tokens of the caller, all or none. Approvals and revocations
/// are those of the handle on the address of the caller. Each of these is
/// followed by a commit, as `followed` says. A mint mints to the caller; it
/// and the transfers go through their second phase, from which the answer
/// comes: the state is committed, the hook is called, and the answer is
/// built from the state under the actor's root. `asked` is what the actor
/// was asked to make its root, if it was asked, with its answer.
pub open spec fn served<BS: Blockstore, MSG: Messaging, A: Actor>(
    request: NftRequest,
    caller: ActorID,
    before: NFT<BS, MSG, A>,
    asked: Option<RootRequest>,
    r: Result<NftReturn, NFTError>,
    after: NFT<BS, MSG, A>,
) -> bool {
    match request {
        NftRequest::TotalSupply => asked is None && after.state@ == before.state@ && r is Ok && r->Ok_0
            == NftReturn::TotalSupply(before.state@.total_supply),
        NftRequest::Mint(p) => exists|
            inner: Result<ReceiverHook<MintIntermediate>, NFTError>,
            mid: NFT<BS, MSG, A>,
        |
            {
                &&& same_services(mid, before)
                &&& #[trigger] mint_outcome(
                    &before.msg,
                    &Address::Id(caller),
                    &Address::Id(caller),
                    before.state@,
                    views(p.metadata@),
                    Seq::empty(),
                    Seq::empty(),
                    inner,
                    mid.state@,
                )
                &&& inner is Err ==> asked is None && r == Err::<NftReturn, NFTError>(inner->Err_0)
                    && after.state@ == mid.state@
                &&& inner is Ok ==> exists|done: Result<MintReturn, NFTError>|
                    #[trigger] mint_completed(mid, inner->Ok_0, asked, done, after) && match done {
                        Ok(ret) => r == Ok::<NftReturn, NFTError>(NftReturn::Mint(ret)),
                        Err(e) => r == Err::<NftReturn, NFTError>(e),
                    }
            },
        NftRequest::Transfer(p) => moved_and_completed(
            &Address::Id(caller),
            &p.to,
            false,
            p.token_ids@,
            p.operator_data@,
            before,
            asked,
            r,
            after,
        ),
        NftRequest::TransferFrom(p) => moved_and_completed(
            &Address::Id(caller),
            &p.to,
            true,
            p.token_ids@,
            p.operator_data@,
            before,
            asked,
            r,
            after,
        ),
        _ => exists|inner: Result<(), NFTError>, mid: NFT<BS, MSG, A>|
            {
                &&& same_services(mid, before)
                &&& #[trigger] changed(
                    request,
                    caller,
                    &before.msg,
                    before.state@,
                    inner,
                    mid.state@,
                )
                &&& followed(mid, inner, asked, r, after)
            },
    }
}

/// What serving a transfer leaves: the first phase went as
/// `transfer_outcome` says; its error is returned; after its success the
/// second phase went as `transfer_completed` says, and its result is returned.
pub open spec fn moved_and_completed<BS: Blockstore, MSG: Messaging, A: Actor>(
    actor: &Address,
    recipient: &Address,
    as_operator: bool,
    ids: Seq<TokenID>,
    operator_data: Seq<u8>,
    before: NFT<BS, MSG, A>,
    asked: Option<RootRequest>,
    r: Result<NftReturn, NFTError>,
    after: NFT<BS, MSG, A>,
) -> bool {
    exists|inner: Result<ReceiverHook<TransferIntermediate>, NFTError>, mid: NFT<BS, MSG, A>|
        {
            &&& same_services(mid, before)
            &&& #[trigger] transfer_outcome(
                &before.msg,
                actor,
                recipient,
                before.state@,
                as_operator,
                ids,
                operator_data,
                Seq::empty(),
                inner,
                mid.state@,
            )
            &&& inner is Err ==> asked is None && r == Err::<NftReturn, NFTError>(inner->Err_0)
                && after.state@ == mid.state@
            &&& inner is Ok ==> exists|done: Result<TransferReturn, NFTError>|
                #[trigger] transfer_completed(mid, inner->Ok_0, asked, done, after) && match done {
                    Ok(ret) => r == Ok::<NftReturn, NFTError>(NftReturn::Transfer(ret)),
                    Err(e) => r == Err::<NftReturn, NFTError>(e),
                }
        }
}

fn finish(done: Result<TransferReturn, NFTError>) -> (r: Result<NftReturn, NFTError>)
    ensures
        match done {
            Ok(ret) => r == Ok::<NftReturn, NFTError>(NftReturn::Transfer(ret)),
            Err(e) => r == Err::<NftReturn, NFTError>(e),
        },
{
    match done {
        Ok(ret) => Ok(NftReturn::Transfer(ret)),
        Err(e) => Err(e),
    }
}

fn finish_mint(done: Result<MintReturn, NFTError>) -> (r: Result<NftReturn, NFTError>)
    ensures
        match done {
            Ok(ret) => r == Ok::<NftReturn, NFTError>(NftReturn::Mint(ret)),
            Err(e) => r == Err::<NftReturn, NFTError>(e),
        },
{
    match done {
        Ok(ret) => Ok(NftReturn::Mint(ret)),
        Err(e) => Err(e),
    }
}

/// Commits after an operation that returns no data.
fn follow<BS: Blockstore, MSG: Messaging, A: Actor>(
    handle: &mut NFT<BS, MSG, A>,
    inner: Result<(), NFTError>,
) -> (r: Result<NftReturn, NFTError>)
    requires
        old(handle).valid(),
    ensures
        final(handle).valid(),
        final(handle).msg == old(handle).msg,
        exists|asked: Option<RootRequest>|
            {
                &&& #[trigger] followed(*old(handle), inner, asked, r, *final(handle))
                &&& match asked {
                    None => final(handle).actor == old(handle).actor,
                    Some(asking) => exists|a: &mut A|
                        {
                            &&& *a == old(handle).actor
                            &&& #[trigger] call_ensures(
                                A::set_root,
                                (a, &asking.address),
                                asking.answer,
                            )
                            &&& final(handle).actor == *final(a)
                        },
                }
            },
{
    match inner {
        Err(e) => {
            let r = Err(e);
            assert(followed(*old(handle), inner, None, r, *handle));
            r
        },
        Ok(_) => {
            let committed = handle.commit();
            let ghost committed0 = committed;
            let ghost asked = choose|asked: Option<RootRequest>|
                {
                    &&& #[trigger] commit_outcome(
                        *old(handle),
                        asked,
                        committed0,
                        handle.bs.blocks(),
                    )
                    &&& match asked {
                        None => handle.actor == old(handle).actor,
                        Some(asking) => exists|a: &mut A|
                            {
                                &&& *a == old(handle).actor
                                &&& #[trigger] call_ensures(
                                    A::set_root,
                                    (a, &asking.address),
                                    asking.answer,
                                )
                                &&& handle.actor == *final(a)
                            },
                    }
                };
            let r = match committed {
                Ok(_) => Ok(NftReturn::NoData),
                Err(e) => Err(e),
            };
            assert(followed(*old(handle), inner, asked, r, *handle));
            r
        },
    }
}

/// Commits after an operation that returns no data, where `before` is
/// the handle before that operation.
fn follow_change<BS: Blockstore, MSG: Messaging, A: Actor>(
    handle: &mut NFT<BS, MSG, A>,
    Ghost(request): Ghost<NftRequest>,
    caller: ActorID,
    inner: Result<(), NFTError>,
    Ghost(before): Ghost<NFT<BS, MSG, A>>,
) -> (r: Result<NftReturn, NFTError>)
    requires
        old(handle).valid(),
        same_services(*old(handle), before),
        changed(request, caller, &before.msg, before.state@, inner, old(handle).state@),
        !(request is TotalSupply || request is Mint || request is Transfer
            || request is TransferFrom),
    ensures
        final(handle).valid(),
        exists|asked: Option<RootRequest>|
            {
                &&& #[trigger] served(request, caller, before, asked, r, *final(handle))
                &&& match asked {
                    None => final(handle).actor == before.actor,
                    Some(asking) => exists|a: &mut A|
                        {
                            &&& *a == before.actor
                            &&& #[trigger] call_ensures(
                                A::set_root,
                                (a, &asking.address),
                                asking.answer,
                            )
                            &&& final(handle).actor == *final(a)
                        },
                }
            },
{
    let ghost mid = *handle;
    let r = follow(handle, inner);
    let ghost asked = choose|asked: Option<RootRequest>|
        {
            &&& #[trigger] followed(mid, inner, asked, r, *handle)
            &&& match asked {
                None => handle.actor == mid.actor,
                Some(asking) => exists|a: &mut A|
                    {
                        &&& *a == mid.actor
                        &&& #[trigger] call_ensures(
                            A::set_root,
                            (a, &asking.address),
                            asking.answer,
                        )
                        &&& handle.actor == *final(a)
                    },
            }
        };
    assert(changed(request, caller, &before.msg, before.state@, inner, mid.state@));
    assert(served(request, caller, before, asked, r, *handle));
    r
}

/// Serves a request to a collection on behalf of `caller`, as `served`
/// says. The actor is as it was if it was not asked to set the root, and
/// else as its `set_root` left it.
pub fn invoke<BS: Blockstore, MSG: Messaging, A: Actor>(
    handle: &mut NFT<BS, MSG, A>,
    caller: ActorID,
    request: NftRequest,
) -> (r: Result<NftReturn, NFTError>)
    requires
        old(handle).valid(),
    ensures
        final(handle).valid(),
        exists|asked: Option<RootRequest>|
            {
                &&& #[trigger] served(request, caller, *old(handle), asked, r, *final(handle))
                &&& match asked {
                    None => final(handle).actor == old(handle).actor,
                    Some(asking) => exists|a: &mut A|
                        {
                            &&& *a == old(handle).actor
                            &&& #[trigger] call_ensures(
                                A::set_root,
                                (a, &asking.address),
                                asking.answer,
                            )
                            &&& final(handle).actor == *final(a)
                        },
                }
            },
{
    let caller_address = caller_address(caller);
    match request {
        NftRequest::TotalSupply => {
            let r = Ok(NftReturn::TotalSupply(handle.total_supply()));
            assert(served(request, caller, *old(handle), None, r, *handle));
            r
        },
        NftRequest::Mint(params) => {
            let minted = handle.mint(
                &caller_address,
                &caller_address,
                params.metadata,
                Vec::new(),
                Vec::new(),
            );
            let ghost inner = minted;
            let ghost mid = *handle;
            assert(mint_outcome(
                &old(handle).msg,
                &Address::Id(caller),
                &Address::Id(caller),
                old(handle).state@,
                views(params.metadata@),
                Seq::<u8>::empty(),
                Seq::<u8>::empty(),
                inner,
                mid.state@,
            ));
            let hook = match minted {
                Ok(h) => h,
                Err(e) => {
                    let r = Err(e);
                    assert(served(request, caller, *old(handle), None, r, *handle));
                    return r;
                },
            };
            assert(hook.valid() && hook.pending());
            let done = handle.complete_mint(hook);
            let ghost copy = done;
            let ghost asked = choose|asked: Option<RootRequest>|
                {
                    &&& #[trigger] mint_completed(mid, hook, asked, copy, *handle)
                    &&& match asked {
                        None => handle.actor == mid.actor,
                        Some(asking) => exists|a: &mut A|
                            {
                                &&& *a == mid.actor
                                &&& #[trigger] call_ensures(
                                    A::set_root,
                                    (a, &asking.address),
                                    asking.answer,
                                )
                                &&& handle.actor == *final(a)
                            },
                    }
                };
            let r = finish_mint(done);
            assert(served(request, caller, *old(handle), asked, r, *handle));
            r
        },
        NftRequest::Burn(token_ids) => {
            let inner = match handle.burn(caller, token_ids.as_slice()) {
                Ok(_) => Ok(()),
                Err(e) => Err(e),
            };
            follow_change(handle, Ghost(request), caller, inner, Ghost(*old(handle)))
        },
        NftRequest::Approve(params) => {
            let inner = handle.approve(
                &caller_address,
                &params.operator,
                params.token_ids.as_slice(),
            );
            follow_change(handle, Ghost(request), caller, inner, Ghost(*old(handle)))
        },
        NftRequest::Revoke(params) => {
            let inner = handle.revoke(&caller_address, &params.operator, params.token_ids.as_slice());
            follow_change(handle, Ghost(request), caller, inner, Ghost(*old(handle)))
        },
        NftRequest::ApproveForAll(params) => {
            let inner = handle.approve_for_owner(&caller_address, &params.operator);
            follow_change(handle, Ghost(request), caller, inner, Ghost(*old(handle)))
        },
        NftRequest::RevokeForAll(params) => {
            let inner = handle.revoke_for_all(&caller_address, &params.operator);
            follow_change(handle, Ghost(request), caller, inner, Ghost(*old(handle)))
        },
        NftRequest::Transfer(params) => {
            let ghost ids = params.token_ids@;
            let ghost data = params.operator_data@;
            let moved = handle.transfer(
                &caller_address,
                &params.to,
                params.token_ids.as_slice(),
                params.operator_data,
                Vec::new(),
            );
            let ghost inner = moved;
            let ghost mid = *handle;
            assert(transfer_outcome(
                &old(handle).msg,
                &Address::Id(caller),
                &params.to,
                old(handle).state@,
                false,
                ids,
                data,
                Seq::<u8>::empty(),
                inner,
                mid.state@,
            ));
            let hook = match moved {
                Ok(h) => h,
                Err(e) => {
                    let r = Err(e);
                    assert(served(request, caller, *old(handle), None, r, *handle));
                    return r;
                },
            };
            assert(hook.valid() && hook.pending());
            let done = handle.complete_transfer(hook);
            let ghost copy = done;
            let ghost asked = choose|asked: Option<RootRequest>|
                {
                    &&& #[trigger] transfer_completed(mid, hook, asked, copy, *handle)
                    &&& match asked {
                        None => handle.actor == mid.actor,
                        Some(asking) => exists|a: &mut A|
                            {
                                &&& *a == mid.actor
                                &&& #[trigger] call_ensures(
                                    A::set_root,
                                    (a, &asking.address),
                                    asking.answer,
                                )
                                &&& handle.actor == *final(a)
                            },
                    }
                };
            let r = finish(done);
            assert(served(request, caller, *old(handle), asked, r, *handle));
            r
        },
        NftRequest::TransferFrom(params) => {
            let ghost ids = params.token_ids@;
            let ghost data = params.operator_data@;
            let moved = handle.transfer_from(
                &caller_address,
                &params.to,
                params.token_ids.as_slice(),
                params.operator_data,
                Vec::new(),
            );
            let ghost inner = moved;
            let ghost mid = *handle;
            assert(transfer_outcome(
                &old(handle).msg,
                &Address::Id(caller),
                &params.to,
                old(handle).state@,
                true,
                ids,
                data,
                Seq::<u8>::empty(),
                inner,
                mid.state@,
            ));
            let hook = match moved {
                Ok(h) => h,
                Err(e) => {
                    let r = Err(e);
                    assert(served(request, caller, *old(handle), None, r, *handle));
                    return r;
                },
            };
            assert(hook.valid() && hook.pending());
            let done = handle.complete_transfer(hook);
            let ghost copy = done;
            let ghost asked = choose|asked: Option<RootRequest>|
                {
                    &&& #[trigger] transfer_completed(mid, hook, asked, copy, *handle)
                    &&& match asked {
                        None => handle.actor == mid.actor,
                        Some(asking) => exists|a: &mut A|
                            {
                                &&& *a == mid.actor
                                &&& #[trigger] call_ensures(
                                    A::set_root,
                                    (a, &asking.address),
                                    asking.answer,
                                )
                                &&& handle.actor == *final(a)
                            },
                    }
                };
            let r = finish(done);
            assert(served(request, caller, *old(handle), asked, r, *handle));
            r
        },
    }
}

} // verus!
