use fvm_shared::error::ExitCode;
use token_ledger::actor::{Actor, FakeActor, FakeRuntime};
use token_ledger::address::{Address, ContentAddress};
use token_ledger::factory::{
    construct_token, exit_code, ConstructorParams, FactoryToken, FactoryTokenState, MintParams,
    RuntimeError,
};
use token_ledger::messaging::{ErrorNumber, FakeMessenger, Messaging, MessagingError};
use token_ledger::receiver::ReceiverHookError;
use token_ledger::store::{MemoryBlockstore, StorageError};
use token_ledger::token::{
    BurnFromParams, BurnParams, DecreaseAllowanceParams, GetAllowanceParams,
    IncreaseAllowanceParams, RevokeAllowanceParams, TokenError, TransferFromParams,
    TransferParams,
};
use token_ledger::token_state::{TokenState, TokenStateError};

const WHOLE: u128 = 1_000_000_000_000_000_000;

fn alice() -> Address {
    Address::new_id(1)
}

fn bob() -> Address {
    Address::new_id(2)
}

fn runtime(caller: u64) -> FakeRuntime {
    FakeRuntime {
        messenger: FakeMessenger::default(),
        actor: FakeActor { root: ContentAddress::from_bytes(Vec::new()) },
        caller,
    }
}

// set up a token instance for testing
// the fake runtime returns actor id 1 as the caller
// so we'd typically want that as the minter (unless we want to be denied)
fn setup_token(minter: &Address) -> FactoryToken<MemoryBlockstore, FakeRuntime> {
    let runtime = runtime(1);
    let actor_id = runtime.resolve_id(minter).unwrap();
    FactoryToken::new(
        runtime,
        MemoryBlockstore::new(),
        String::from("Test Token").into_bytes(),
        String::from("TEST").into_bytes(),
        1,
        Some(actor_id),
    )
}

#[test]
fn it_mints() {
    let mut token = setup_token(&alice());

    let ret = token
        .mint(MintParams { initial_owner: bob(), amount: 10 * WHOLE, operator_data: Vec::new() })
        .unwrap();

    // check balance
    assert_eq!(ret.balance, 10 * WHOLE);
    assert_eq!(token.balance_of(&bob()).unwrap(), 10 * WHOLE);
}

#[test]
fn it_denies_unauthorised_minter() {
    let mut token = setup_token(&bob());

    let err = token
        .mint(MintParams { initial_owner: alice(), amount: 10 * WHOLE, operator_data: Vec::new() })
        .unwrap_err();

    // check error
    match err {
        RuntimeError::AddressNotAuthorized => {}
        _ => panic!("unexpected error"),
    }
}

#[test]
fn minting_is_disabled_for_everybody_once_disabled() {
    let mut token = setup_token(&alice());
    token
        .mint(MintParams { initial_owner: bob(), amount: 5, operator_data: Vec::new() })
        .unwrap();
    // somebody else cannot disable it
    token.runtime.caller = 2;
    assert!(matches!(token.disable_mint(), Err(RuntimeError::AddressNotAuthorized)));
    token.runtime.caller = 1;
    token.disable_mint().unwrap();
    assert_eq!(token.state.minter, None);
    let before = token.state.to_bytes();
    for caller in [0u64, 1, 2, 100, u64::MAX] {
        token.runtime.caller = caller;
        let err = token
            .mint(MintParams { initial_owner: bob(), amount: 5, operator_data: Vec::new() })
            .unwrap_err();
        assert!(matches!(err, RuntimeError::MintingDisabled));
        assert!(matches!(token.disable_mint(), Err(RuntimeError::MintingDisabled)));
    }
    assert_eq!(token.state.to_bytes(), before);
    assert_eq!(token.total_supply(), 5);
}

#[test]
fn decreasing_an_allowance_to_zero_removes_it() {
    let mut token = setup_token(&alice());
    let never_set = token.state.to_bytes();
    assert_eq!(
        token.increase_allowance(IncreaseAllowanceParams { operator: bob(), increase: 30 }).unwrap(),
        30
    );
    assert_eq!(
        token.decrease_allowance(DecreaseAllowanceParams { operator: bob(), decrease: 10 }).unwrap(),
        20
    );
    assert_eq!(
        token.allowance(&GetAllowanceParams { owner: alice(), operator: bob() }).unwrap(),
        20
    );
    assert_eq!(
        token.decrease_allowance(DecreaseAllowanceParams { operator: bob(), decrease: 20 }).unwrap(),
        0
    );
    assert_eq!(
        token.allowance(&GetAllowanceParams { owner: alice(), operator: bob() }).unwrap(),
        0
    );
    // no entry is left: the account of alice holds nothing and allows nothing
    let mut fresh = TokenState::new();
    fresh.set_balance(1, 0);
    assert_eq!(token.state.token.get_allowance_between(1, 2), 0);
    let mut a = Vec::new();
    token.state.token.encode(&mut a);
    let mut b = Vec::new();
    fresh.encode(&mut b);
    assert_eq!(a, b);
    assert_ne!(token.state.to_bytes(), never_set);
    // decreasing below zero is refused and changes nothing
    let before = token.state.to_bytes();
    let err = token
        .decrease_allowance(DecreaseAllowanceParams { operator: bob(), decrease: 1 })
        .unwrap_err();
    assert!(matches!(
        err,
        RuntimeError::Token(TokenError::TokenState(TokenStateError::InsufficientAllowance {
            owner: 1,
            operator: 2,
            allowance: 0,
            delta: 1
        }))
    ));
    assert_eq!(token.state.to_bytes(), before);
}

#[test]
fn allowance_increase_never_wraps() {
    let mut state = TokenState::new();
    assert_eq!(state.increase_allowance(1, 2, u128::MAX - 1), u128::MAX - 1);
    assert_eq!(state.increase_allowance(1, 2, 5), u128::MAX);
    assert_eq!(state.get_allowance_between(1, 2), u128::MAX);
    assert_eq!(state.decrease_allowance(1, 2, u128::MAX), Ok(0));
    assert_eq!(state.get_allowance_between(1, 2), 0);
}

#[test]
fn revoking_an_allowance_that_was_never_set_changes_nothing() {
    let mut token = setup_token(&alice());
    token
        .mint(MintParams { initial_owner: alice(), amount: 5, operator_data: Vec::new() })
        .unwrap();
    let before = token.state.to_bytes();
    token.revoke_allowance(RevokeAllowanceParams { operator: bob() }).unwrap();
    assert_eq!(token.state.to_bytes(), before);
    // an operator that never resolved to an account
    token.revoke_allowance(RevokeAllowanceParams { operator: Address::Actor(vec![3u8; 20]) }).unwrap();
    assert_eq!(token.state.to_bytes(), before);
    // an owner without any record
    let mut state = TokenState::new();
    let mut empty = Vec::new();
    state.encode(&mut empty);
    state.revoke_allowance(8, 9);
    let mut after = Vec::new();
    state.encode(&mut after);
    assert_eq!(empty, after);
    // revoking one that is set removes it
    token.increase_allowance(IncreaseAllowanceParams { operator: bob(), increase: 3 }).unwrap();
    token.revoke_allowance(RevokeAllowanceParams { operator: bob() }).unwrap();
    assert_eq!(token.state.to_bytes(), before);
}

#[test]
fn transfers_move_exact_amounts() {
    let mut token = setup_token(&alice());
    token
        .mint(MintParams { initial_owner: alice(), amount: 100, operator_data: Vec::new() })
        .unwrap();
    let ret = token
        .transfer(TransferParams { to: bob(), amount: 40, operator_data: Vec::new() })
        .unwrap();
    assert_eq!(ret.from_balance, 60);
    assert_eq!(ret.to_balance, 40);
    assert_eq!(token.total_supply(), 100);
    // to oneself
    let ret = token
        .transfer(TransferParams { to: alice(), amount: 60, operator_data: Vec::new() })
        .unwrap();
    assert_eq!(ret.from_balance, 60);
    assert_eq!(ret.to_balance, 60);
    // more than the balance
    let before = token.state.to_bytes();
    let blocks = token.bs.len();
    let err = token
        .transfer(TransferParams { to: bob(), amount: 61, operator_data: Vec::new() })
        .unwrap_err();
    assert!(matches!(
        err,
        RuntimeError::Token(TokenError::TokenState(TokenStateError::InsufficientBalance {
            owner: 1,
            balance: 60,
            delta: 61
        }))
    ));
    assert_eq!(token.state.to_bytes(), before);
    assert_eq!(token.bs.len(), blocks);
}

#[test]
fn amounts_must_be_multiples_of_the_granularity() {
    let mut state = TokenState::new();
    assert_eq!(
        state.mint(100, 1, 250),
        Err(TokenStateError::InvalidGranularity { amount: 250, granularity: 100 })
    );
    assert_eq!(state.mint(100, 1, 300), Ok(()));
    assert_eq!(
        state.transfer(100, 1, 2, 150),
        Err(TokenStateError::InvalidGranularity { amount: 150, granularity: 100 })
    );
    assert_eq!(state.transfer(100, 1, 2, 200), Ok(()));
    assert_eq!(
        state.burn(100, 2, 1),
        Err(TokenStateError::InvalidGranularity { amount: 1, granularity: 100 })
    );
    assert_eq!(state.burn(100, 2, 100), Ok(()));
    assert_eq!(state.get_balance(1), 100);
    assert_eq!(state.get_balance(2), 100);
    assert_eq!(state.total_supply(), 200);
    // no amount is a multiple of a granularity of zero
    assert_eq!(
        state.mint(0, 1, 0),
        Err(TokenStateError::InvalidGranularity { amount: 0, granularity: 0 })
    );
}

#[test]
fn balances_and_supply_never_wrap() {
    let mut state = TokenState::new();
    assert_eq!(state.mint(1, 1, u128::MAX), Ok(()));
    assert_eq!(state.mint(1, 2, 1), Err(TokenStateError::Overflow));
    assert_eq!(state.total_supply(), u128::MAX);
    assert_eq!(state.get_balance(2), 0);
}

#[test]
fn operators_spend_their_allowance() {
    let mut token = setup_token(&alice());
    token
        .mint(MintParams { initial_owner: bob(), amount: 100, operator_data: Vec::new() })
        .unwrap();
    // bob allows alice, the caller of everything below, to spend 50
    token.runtime.caller = 2;
    token.increase_allowance(IncreaseAllowanceParams { operator: alice(), increase: 50 }).unwrap();
    token.runtime.caller = 1;
    let carol = Address::new_id(3);
    let ret = token
        .transfer_from(TransferFromParams {
            from: bob(),
            to: carol,
            amount: 20,
            operator_data: Vec::new(),
        })
        .unwrap();
    assert_eq!(ret.from_balance, 80);
    assert_eq!(ret.to_balance, 20);
    assert_eq!(ret.allowance, 30);
    let burnt = token.burn_from(BurnFromParams { owner: bob(), amount: 30 }).unwrap();
    assert_eq!(burnt.balance, 50);
    assert_eq!(burnt.allowance, 0);
    assert_eq!(token.total_supply(), 70);
    // the allowance is used up: nothing moves, and nothing changes
    let before = token.state.to_bytes();
    let err = token
        .transfer_from(TransferFromParams {
            from: bob(),
            to: Address::new_id(3),
            amount: 1,
            operator_data: Vec::new(),
        })
        .unwrap_err();
    assert!(matches!(
        err,
        RuntimeError::Token(TokenError::TokenState(TokenStateError::InsufficientAllowance {
            owner: 2,
            operator: 1,
            allowance: 0,
            delta: 1
        }))
    ));
    assert_eq!(token.state.to_bytes(), before);
    // an allowance does not help beyond the balance, and is not spent then
    token.runtime.caller = 2;
    token.increase_allowance(IncreaseAllowanceParams { operator: alice(), increase: 500 }).unwrap();
    token.runtime.caller = 1;
    let err = token.burn_from(BurnFromParams { owner: bob(), amount: 51 }).unwrap_err();
    assert!(matches!(
        err,
        RuntimeError::Token(TokenError::TokenState(TokenStateError::InsufficientBalance { .. }))
    ));
    assert_eq!(
        token.allowance(&GetAllowanceParams { owner: bob(), operator: alice() }).unwrap(),
        500
    );
    let burnt = token.burn(BurnParams { amount: 0 }).unwrap();
    assert_eq!(burnt.balance, 0);
}

#[test]
fn state_of_a_token_is_flushed_and_loaded() {
    let mut token = setup_token(&alice());
    token
        .mint(MintParams { initial_owner: bob(), amount: 7 * WHOLE, operator_data: Vec::new() })
        .unwrap();
    token.increase_allowance(IncreaseAllowanceParams { operator: bob(), increase: 9 }).unwrap();
    let address = token.save().unwrap();
    let loaded = FactoryTokenState::load(&token.bs, &address).unwrap();
    assert_eq!(loaded.name, b"Test Token".to_vec());
    assert_eq!(loaded.symbol, b"TEST".to_vec());
    assert_eq!(loaded.granularity, 1);
    assert_eq!(loaded.minter, Some(1));
    assert_eq!(loaded.token.get_balance(2), 7 * WHOLE);
    assert_eq!(loaded.token.total_supply(), 7 * WHOLE);
    assert_eq!(loaded.token.get_allowance_between(1, 2), 9);
    assert_eq!(loaded.to_bytes(), token.state.to_bytes());
    let missing = ContentAddress::from_bytes(vec![5u8; 8]);
    assert!(matches!(
        FactoryTokenState::load(&token.bs, &missing),
        Err(RuntimeError::Deserialization(StorageError::Missing))
    ));
    let bytes = token.state.to_bytes();
    assert!(FactoryTokenState::from_bytes(&bytes[..bytes.len() - 1]).is_none());
    let mut long = bytes.clone();
    long.push(0);
    assert!(FactoryTokenState::from_bytes(&long).is_none());
    // a token without minter
    token.disable_mint().unwrap();
    let back = FactoryTokenState::from_bytes(&token.state.to_bytes()).unwrap();
    assert_eq!(back.minter, None);
}

#[test]
fn layout_of_a_token_state_is_exact() {
    let mut state = TokenState::new();
    state.mint(1, 3, 258).unwrap();
    state.set_allowance(3, 4, 1);
    let mut expected: Vec<u8> = Vec::new();
    expected.extend_from_slice(&258u128.to_le_bytes()); // supply
    expected.extend_from_slice(&1u64.to_le_bytes()); // one account
    expected.extend_from_slice(&3u64.to_le_bytes()); // its id
    expected.extend_from_slice(&258u128.to_le_bytes()); // its balance
    expected.extend_from_slice(&1u64.to_le_bytes()); // one allowance
    expected.extend_from_slice(&4u64.to_le_bytes()); // operator
    expected.extend_from_slice(&1u128.to_le_bytes()); // amount
    let mut bytes = Vec::new();
    state.encode(&mut bytes);
    assert_eq!(bytes, expected);
    let (back, end) = TokenState::decode(&expected, 0).unwrap();
    assert_eq!(end, expected.len());
    assert_eq!(back.get_allowance_between(3, 4), 1);
    assert_eq!(back.get_balance(3), 258);
}

#[test]
fn constructor_resolves_the_minter_and_sets_the_root() {
    let token = construct_token(
        runtime(1),
        MemoryBlockstore::new(),
        ConstructorParams {
            name: b"Name".to_vec(),
            symbol: b"SYM".to_vec(),
            granularity: 10,
            minter: Address::Secp256k1(vec![0u8; 20]),
        },
    )
    .unwrap();
    assert_eq!(token.state.minter, Some(100));
    assert_eq!(token.granularity(), 10);
    assert_eq!(token.name(), b"Name".to_vec());
    assert_eq!(token.symbol(), b"SYM".to_vec());
    let root = token.runtime.root_cid().unwrap();
    let loaded = FactoryToken::load(runtime(1), token.bs, &root).unwrap();
    assert_eq!(loaded.state.minter, Some(100));
    assert_eq!(loaded.total_supply(), 0);
    let err = construct_token(
        runtime(1),
        MemoryBlockstore::new(),
        ConstructorParams {
            name: Vec::new(),
            symbol: Vec::new(),
            granularity: 1,
            minter: Address::Bls(vec![0u8; 48]),
        },
    );
    assert!(matches!(err, Err(RuntimeError::Messaging(MessagingError::AddressNotResolved(_)))));
}

#[test]
fn receiver_that_refuses_a_mint_does_not_undo_it() {
    let mut token = setup_token(&alice());
    let err = token
        .mint(MintParams { initial_owner: bob(), amount: 5, operator_data: vec![1u8] })
        .unwrap_err();
    assert!(matches!(
        err,
        RuntimeError::Receiver(ReceiverHookError::Receiver { address: 2, exit_code: 5, .. })
    ));
    assert_eq!(token.balance_of(&bob()).unwrap(), 5);
    assert_eq!(token.total_supply(), 5);
}

#[test]
fn errors_map_to_exit_codes() {
    let cases: Vec<(RuntimeError, ExitCode)> = vec![
        (RuntimeError::Encoding, ExitCode::USR_SERIALIZATION),
        (RuntimeError::Blockstore(ErrorNumber::IllegalArgument), ExitCode::USR_ILLEGAL_ARGUMENT),
        (RuntimeError::Blockstore(ErrorNumber::Forbidden), ExitCode::USR_FORBIDDEN),
        (RuntimeError::Blockstore(ErrorNumber::IllegalOperation), ExitCode::USR_FORBIDDEN),
        (RuntimeError::Blockstore(ErrorNumber::AssertionFailed), ExitCode::USR_ASSERTION_FAILED),
        (RuntimeError::Blockstore(ErrorNumber::InsufficientFunds), ExitCode::USR_INSUFFICIENT_FUNDS),
        (RuntimeError::Blockstore(ErrorNumber::IllegalCid), ExitCode::USR_NOT_FOUND),
        (RuntimeError::Blockstore(ErrorNumber::NotFound), ExitCode::USR_NOT_FOUND),
        (RuntimeError::Blockstore(ErrorNumber::InvalidHandle), ExitCode::USR_NOT_FOUND),
        (RuntimeError::Blockstore(ErrorNumber::Serialization), ExitCode::USR_SERIALIZATION),
        (RuntimeError::Blockstore(ErrorNumber::IllegalCodec), ExitCode::USR_SERIALIZATION),
        (RuntimeError::Blockstore(ErrorNumber::LimitExceeded), ExitCode::USR_UNSPECIFIED),
        (RuntimeError::Blockstore(ErrorNumber::BufferTooSmall), ExitCode::USR_UNSPECIFIED),
        (RuntimeError::Blockstore(ErrorNumber::ReadOnly), ExitCode::USR_UNSPECIFIED),
        (RuntimeError::NoState, ExitCode::USR_NOT_FOUND),
        (
            RuntimeError::StateUpdate(token_ledger::actor::RootUpdateError::ActorDeleted),
            ExitCode::USR_ILLEGAL_STATE,
        ),
        (
            RuntimeError::StateUpdate(token_ledger::actor::RootUpdateError::ReadOnly),
            ExitCode::USR_READ_ONLY,
        ),
        (RuntimeError::Deserialization(StorageError::Corrupt), ExitCode::USR_SERIALIZATION),
        (RuntimeError::Serialization(StorageError::Unavailable), ExitCode::USR_SERIALIZATION),
        (RuntimeError::AddressNotAuthorized, ExitCode::USR_FORBIDDEN),
        (RuntimeError::MintingDisabled, ExitCode::USR_FORBIDDEN),
        (
            RuntimeError::State(TokenStateError::InsufficientBalance { owner: 1, balance: 0, delta: 1 }),
            ExitCode::USR_INSUFFICIENT_FUNDS,
        ),
        (
            RuntimeError::Token(TokenError::TokenState(TokenStateError::InvalidGranularity {
                amount: 1,
                granularity: 2,
            })),
            ExitCode::USR_ILLEGAL_ARGUMENT,
        ),
        (
            RuntimeError::Messaging(MessagingError::AddressNotResolved(Address::new_id(1))),
            ExitCode::USR_NOT_FOUND,
        ),
        (RuntimeError::Messaging(MessagingError::Ipld), ExitCode::USR_SERIALIZATION),
        (
            RuntimeError::Receiver(ReceiverHookError::AlreadyCalled),
            ExitCode::USR_ILLEGAL_STATE,
        ),
        (
            RuntimeError::Receiver(ReceiverHookError::Receiver {
                address: 1,
                exit_code: 5,
                return_data: Vec::new(),
            }),
            ExitCode::USR_FORBIDDEN,
        ),
    ];
    for (error, code) in cases {
        assert_eq!(exit_code(&error), code.value(), "{:?}", error);
        assert_ne!(exit_code(&error), ExitCode::OK.value());
    }
    assert_eq!(token_ledger::messaging::SYS_INVALID_RECEIVER, ExitCode::SYS_INVALID_RECEIVER.value());
    assert_eq!(token_ledger::messaging::EXIT_OK, ExitCode::OK.value());
}

#[test]
fn reload_follows_the_root_of_the_actor() {
    let mut token = setup_token(&alice());
    token
        .mint(MintParams { initial_owner: bob(), amount: 8, operator_data: Vec::new() })
        .unwrap();
    let known = token.runtime.root_cid().unwrap();
    // the root is the one that is known: the state stays
    token.state.token.set_balance(2, 1);
    token.reload(&known).unwrap();
    assert_eq!(token.state.token.get_balance(2), 1);
    // another root: the state becomes the one that the store holds there
    let other = ContentAddress::from_bytes(vec![9u8; 3]);
    token.reload(&other).unwrap();
    assert_eq!(token.state.token.get_balance(2), 8);
    assert_eq!(token.total_supply(), 8);
    // a root that the store does not hold: the state stays, and the error says why
    token.state.token.set_balance(2, 3);
    token.runtime.actor.root = ContentAddress::from_bytes(vec![7u8; 5]);
    assert!(matches!(
        token.reload(&known),
        Err(RuntimeError::Deserialization(StorageError::Missing))
    ));
    assert_eq!(token.state.token.get_balance(2), 3);
}
