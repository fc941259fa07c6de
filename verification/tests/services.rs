use token_ledger::actor::{Actor, ActorError, FakeActor, FakeRuntime, RootUpdateError, Runtime};
use token_ledger::address::{Address, ContentAddress};
use token_ledger::codec::{
    decode_bytes, decode_list, decode_word, encode_bytes, encode_list, encode_word,
};
use std::cell::Cell;
use token_ledger::factory::{
    construct_token, exit_code, ConstructorParams, FactoryToken, MintParams, RuntimeError,
};
use token_ledger::invoke::{constructor, nft_exit_code};
use token_ledger::idmap::IdMap;
use token_ledger::messaging::{
    ErrorNumber, FakeMessenger, Messaging, MessagingError, Receipt, TokensReceived,
};
use token_ledger::nft::{NFTError, NFT};
use token_ledger::nft_state::{NFTState, StateError};
use token_ledger::receiver::ReceiverHookError;
use token_ledger::store::{Blockstore, MemoryBlockstore, StorageError};
use token_ledger::token::{RevokeAllowanceParams, TokenError, TransferParams};
use token_ledger::token_state::{TokenState, TokenStateError};

struct DownStore;

impl Blockstore for DownStore {
    fn get(&self, _address: &ContentAddress) -> Result<Option<Vec<u8>>, StorageError> {
        Err(StorageError::Unavailable)
    }

    fn put(&mut self, _data: &[u8]) -> Result<ContentAddress, StorageError> {
        Err(StorageError::Unavailable)
    }
}

struct ReadOnlyActor;

impl Actor for ReadOnlyActor {
    fn root_cid(&self) -> Result<ContentAddress, ActorError> {
        Err(ActorError::NoState)
    }

    fn set_root(&mut self, _address: &ContentAddress) -> Result<(), RootUpdateError> {
        Err(RootUpdateError::ReadOnly)
    }
}

struct DownMessenger;

impl Messaging for DownMessenger {
    fn call_receiver_hook(&self, _notice: &TokensReceived) -> Result<Receipt, MessagingError> {
        Err(MessagingError::Syscall(ErrorNumber::LimitExceeded))
    }

    fn resolve_id(&self, address: &Address) -> Result<u64, MessagingError> {
        match address {
            Address::Id(id) => Ok(*id),
            _ => Err(MessagingError::Syscall(ErrorNumber::Forbidden)),
        }
    }

    fn initialise_account(&self, _address: &Address) -> Result<u64, MessagingError> {
        Err(MessagingError::Ipld)
    }
}

struct DownRuntime;

impl Messaging for DownRuntime {
    fn call_receiver_hook(&self, notice: &TokensReceived) -> Result<Receipt, MessagingError> {
        DownMessenger.call_receiver_hook(notice)
    }

    fn resolve_id(&self, address: &Address) -> Result<u64, MessagingError> {
        DownMessenger.resolve_id(address)
    }

    fn initialise_account(&self, address: &Address) -> Result<u64, MessagingError> {
        DownMessenger.initialise_account(address)
    }
}

impl Actor for DownRuntime {
    fn root_cid(&self) -> Result<ContentAddress, ActorError> {
        Err(ActorError::NoState)
    }

    fn set_root(&mut self, _address: &ContentAddress) -> Result<(), RootUpdateError> {
        Ok(())
    }
}

impl Runtime for DownRuntime {
    fn caller(&self) -> u64 {
        1
    }
}

#[test]
fn store_that_is_down_is_reported() {
    let mut down = DownStore;
    let state = NFTState::new();
    assert!(matches!(state.save(&mut down), Err(StorageError::Unavailable)));
    let nowhere = ContentAddress::from_bytes(vec![1]);
    assert!(matches!(NFTState::load(&down, &nowhere), Err(StorageError::Unavailable)));
    let mut nft = NFT::wrap(DownStore, FakeMessenger::new(4, 5), FakeActor { root: nowhere }, state);
    assert!(matches!(nft.flush(), Err(NFTError::Storage(StorageError::Unavailable))));
    assert!(matches!(nft.commit(), Err(NFTError::Storage(StorageError::Unavailable))));
    let changed = ContentAddress::from_bytes(vec![2]);
    assert!(matches!(
        nft.reload_if_changed(&changed),
        Err(NFTError::Storage(StorageError::Unavailable))
    ));
    let mut token = FactoryToken::new(
        FakeRuntime {
            messenger: FakeMessenger::default(),
            actor: FakeActor { root: ContentAddress::from_bytes(Vec::new()) },
            caller: 1,
        },
        DownStore,
        Vec::new(),
        Vec::new(),
        1,
        Some(1),
    );
    let err = token.save().unwrap_err();
    assert!(matches!(err, RuntimeError::Serialization(StorageError::Unavailable)));
    // a mint that the token accepts is not undone by the failure to flush
    let err = token
        .mint(MintParams { initial_owner: Address::new_id(2), amount: 4, operator_data: Vec::new() })
        .unwrap_err();
    assert!(matches!(err, RuntimeError::Serialization(StorageError::Unavailable)));
    assert_eq!(exit_code(&err), 21);
    assert_eq!(token.total_supply(), 4);
}

#[test]
fn actor_whose_root_cannot_be_set_is_reported() {
    let mut nft = NFT::wrap(MemoryBlockstore::new(), FakeMessenger::new(4, 5), ReadOnlyActor, NFTState::new());
    assert!(matches!(
        nft.commit(),
        Err(NFTError::Actor(ActorError::RootUpdate(RootUpdateError::ReadOnly)))
    ));
    // the state was flushed all the same
    assert_eq!(nft.bs.len(), 1);
    let any = ContentAddress::from_bytes(vec![1]);
    assert!(matches!(nft.reload_if_changed(&any), Err(NFTError::Actor(ActorError::NoState))));
    let mut hook = nft
        .mint(&Address::new_id(1), &Address::new_id(1), vec![Vec::new()], Vec::new(), Vec::new())
        .unwrap();
    let minted = hook.call(&nft.msg).unwrap();
    let before = nft.state.to_bytes();
    assert!(matches!(nft.mint_return(minted, &any), Err(NFTError::Actor(ActorError::NoState))));
    assert_eq!(nft.state.to_bytes(), before);
}

#[test]
fn messenger_that_is_down_is_reported() {
    let mut nft = NFT::wrap(
        MemoryBlockstore::new(),
        DownMessenger,
        FakeActor { root: ContentAddress::from_bytes(Vec::new()) },
        NFTState::new(),
    );
    let bls = Address::Bls(vec![0u8; 48]);
    // an error other than "no account" is no zero balance
    assert!(matches!(
        nft.balance_of(&bls),
        Err(NFTError::Messaging(MessagingError::Syscall(ErrorNumber::Forbidden)))
    ));
    let err = nft.transfer(&bls, &Address::new_id(2), &[], Vec::new(), Vec::new()).unwrap_err();
    assert!(matches!(err, NFTError::Messaging(MessagingError::Syscall(ErrorNumber::Forbidden))));
    // only an operator without an account is revoked without effect: any
    // other failure to resolve it is reported
    assert!(matches!(
        nft.revoke(&Address::new_id(1), &bls, &[0]),
        Err(NFTError::Messaging(MessagingError::Syscall(ErrorNumber::Forbidden)))
    ));
    assert!(matches!(
        nft.revoke_for_all(&Address::new_id(1), &bls),
        Err(NFTError::Messaging(MessagingError::Syscall(ErrorNumber::Forbidden)))
    ));
    let mut hook = nft
        .mint(&Address::new_id(1), &Address::new_id(1), vec![Vec::new()], Vec::new(), Vec::new())
        .unwrap();
    assert!(matches!(
        hook.call(&nft.msg),
        Err(ReceiverHookError::Messaging(MessagingError::Syscall(ErrorNumber::LimitExceeded)))
    ));
    assert!(matches!(hook.call(&nft.msg), Err(ReceiverHookError::AlreadyCalled)));

    let mut token =
        FactoryToken::new(DownRuntime, MemoryBlockstore::new(), Vec::new(), Vec::new(), 1, Some(1));
    let err = token
        .mint(MintParams { initial_owner: Address::new_id(1), amount: 4, operator_data: Vec::new() })
        .unwrap_err();
    assert!(matches!(
        err,
        RuntimeError::Receiver(ReceiverHookError::Messaging(MessagingError::Syscall(
            ErrorNumber::LimitExceeded
        )))
    ));
    assert_eq!(exit_code(&err), 23);
    let err = token
        .transfer(TransferParams { to: bls, amount: 1, operator_data: Vec::new() })
        .unwrap_err();
    assert_eq!(exit_code(&err), 18);
    assert_eq!(token.state.token.get_balance(1), 4);
    let err = token
        .revoke_allowance(RevokeAllowanceParams { operator: Address::Bls(vec![0u8; 48]) })
        .unwrap_err();
    assert!(matches!(
        err,
        RuntimeError::Token(TokenError::Messaging(MessagingError::Syscall(ErrorNumber::Forbidden)))
    ));
}

#[test]
fn revoking_reports_every_failure_but_a_missing_account() {
    let mut state = NFTState::new();
    state.mint_tokens(1, &vec![Vec::new()]).unwrap();
    state.approve_for_tokens(1, 7, &[0]).unwrap();
    state.approve_for_owner(1, 7);
    let before = state.to_bytes();
    let mut nft = NFT::wrap(
        MemoryBlockstore::new(),
        FakeMessenger::new(4, 5),
        FakeActor { root: ContentAddress::from_bytes(Vec::new()) },
        state,
    );
    let mut token = TokenState::new();
    token.increase_allowance(1, 7, 10);
    let failures = || {
        [
            MessagingError::Syscall(ErrorNumber::Forbidden),
            MessagingError::Ipld,
            MessagingError::AddressNotInitialised(Address::new_id(9)),
        ]
    };
    for (error, same) in failures().into_iter().zip(failures()) {
        let shown = format!("Err(Messaging({:?}))", same);
        assert_eq!(format!("{:?}", nft.revoke_resolved(1, Err(error), &[0])), shown);
    }
    for (error, same) in failures().into_iter().zip(failures()) {
        let shown = format!("Err(Messaging({:?}))", same);
        assert_eq!(format!("{:?}", nft.revoke_for_all_resolved(1, Err(error))), shown);
    }
    for (error, same) in failures().into_iter().zip(failures()) {
        let shown = format!("Err(Messaging({:?}))", same);
        let r = token_ledger::token::revoke_allowance_resolved(&mut token, 1, Err(error));
        assert_eq!(format!("{:?}", r), shown);
    }
    // an operator without an account has nothing to revoke
    let missing = || Err(MessagingError::AddressNotResolved(Address::Bls(vec![0u8; 48])));
    nft.revoke_resolved(1, missing(), &[0]).unwrap();
    nft.revoke_for_all_resolved(1, missing()).unwrap();
    token_ledger::token::revoke_allowance_resolved(&mut token, 1, missing()).unwrap();
    assert_eq!(nft.state.to_bytes(), before);
    assert_eq!(token.get_allowance_between(1, 7), 10);
    // one with an account loses what it had
    nft.revoke_resolved(1, Ok(7), &[0]).unwrap();
    nft.revoke_for_all_resolved(1, Ok(7)).unwrap();
    token_ledger::token::revoke_allowance_resolved(&mut token, 1, Ok(7)).unwrap();
    assert_ne!(nft.state.to_bytes(), before);
    assert_eq!(token.get_allowance_between(1, 7), 0);
}

struct CountingRuntime {
    hooks: Cell<u32>,
    roots: u32,
}

impl Messaging for CountingRuntime {
    fn call_receiver_hook(&self, _notice: &TokensReceived) -> Result<Receipt, MessagingError> {
        self.hooks.set(self.hooks.get() + 1);
        Ok(Receipt { exit_code: 0, return_data: Vec::new(), gas_used: 0 })
    }

    fn resolve_id(&self, address: &Address) -> Result<u64, MessagingError> {
        DownMessenger.resolve_id(address)
    }

    fn initialise_account(&self, address: &Address) -> Result<u64, MessagingError> {
        DownMessenger.initialise_account(address)
    }
}

impl Actor for CountingRuntime {
    fn root_cid(&self) -> Result<ContentAddress, ActorError> {
        Err(ActorError::NoState)
    }

    fn set_root(&mut self, _address: &ContentAddress) -> Result<(), RootUpdateError> {
        self.roots += 1;
        Err(RootUpdateError::ReadOnly)
    }
}

impl Runtime for CountingRuntime {
    fn caller(&self) -> u64 {
        1
    }
}

#[test]
fn root_that_cannot_be_set_is_reported_as_such_and_the_hook_is_not_called() {
    let mut token = FactoryToken::new(
        CountingRuntime { hooks: Cell::new(0), roots: 0 },
        MemoryBlockstore::new(),
        Vec::new(),
        Vec::new(),
        1,
        Some(1),
    );
    let err = token
        .mint(MintParams { initial_owner: Address::new_id(2), amount: 4, operator_data: Vec::new() })
        .unwrap_err();
    assert!(matches!(err, RuntimeError::StateUpdate(RootUpdateError::ReadOnly)));
    assert_eq!(exit_code(&err), 25);
    assert_eq!(token.runtime.roots, 1);
    assert_eq!(token.runtime.hooks.get(), 0);
    // the state was flushed, and the mint is not undone
    assert_eq!(token.bs.len(), 1);
    assert_eq!(token.total_supply(), 4);

    let r = construct_token(
        CountingRuntime { hooks: Cell::new(0), roots: 0 },
        MemoryBlockstore::new(),
        ConstructorParams {
            name: Vec::new(),
            symbol: Vec::new(),
            granularity: 1,
            minter: Address::new_id(1),
        },
    );
    assert!(matches!(r, Err(RuntimeError::StateUpdate(RootUpdateError::ReadOnly))));

    let mut bs = MemoryBlockstore::new();
    let r = constructor(&mut bs, &mut ReadOnlyActor);
    match r {
        Err(e) => {
            assert!(matches!(e, NFTError::Actor(ActorError::RootUpdate(RootUpdateError::ReadOnly))));
            assert_eq!(nft_exit_code(&e), 25);
        }
        Ok(_) => panic!("the root cannot be set"),
    }
    assert_eq!(bs.len(), 1);
}

#[test]
fn second_phase_sets_the_root_and_calls_the_hook_once() {
    let mut token = FactoryToken::new(
        FakeRuntime {
            messenger: FakeMessenger::default(),
            actor: FakeActor { root: ContentAddress::from_bytes(Vec::new()) },
            caller: 1,
        },
        MemoryBlockstore::new(),
        Vec::new(),
        Vec::new(),
        1,
        Some(1),
    );
    let ret = token
        .mint(MintParams { initial_owner: Address::new_id(2), amount: 4, operator_data: Vec::new() })
        .unwrap();
    assert_eq!(ret.balance, 4);
    assert_eq!(ret.supply, 4);
    // the root is the address of the state after the mint, and the store holds it there
    let bytes = token.state.to_bytes();
    let root = token.runtime.root_cid().unwrap();
    assert_eq!(root.bytes, ContentAddress::of_block(&bytes).bytes);
    assert_eq!(token.bs.get(&root).unwrap(), Some(bytes));
}

#[test]
fn constructors_flush_under_the_address_of_the_state() {
    let token = construct_token(
        FakeRuntime {
            messenger: FakeMessenger::default(),
            actor: FakeActor { root: ContentAddress::from_bytes(Vec::new()) },
            caller: 1,
        },
        MemoryBlockstore::new(),
        ConstructorParams {
            name: b"N".to_vec(),
            symbol: b"S".to_vec(),
            granularity: 1,
            minter: Address::new_id(1),
        },
    )
    .unwrap();
    let bytes = token.state.to_bytes();
    let root = token.runtime.root_cid().unwrap();
    assert_eq!(root.bytes, ContentAddress::of_block(&bytes).bytes);
    assert_eq!(token.bs.len(), 1);
    assert_eq!(token.bs.get(&root).unwrap(), Some(bytes));

    let mut bs = MemoryBlockstore::new();
    let mut actor = FakeActor { root: ContentAddress::from_bytes(Vec::new()) };
    let state = constructor(&mut bs, &mut actor).unwrap();
    let bytes = state.to_bytes();
    assert_eq!(bytes, NFTState::new().to_bytes());
    assert_eq!(actor.root.bytes, ContentAddress::of_block(&bytes).bytes);
    assert_eq!(bs.len(), 1);
    assert_eq!(bs.get(&actor.root).unwrap(), Some(bytes));
}

#[test]
fn errors_of_a_collection_map_to_exit_codes() {
    let cases = [
        (NFTError::NFTState(StateError::TokenNotFound(3)), 17),
        (NFTError::NFTState(StateError::NotOwner { actor: 1, token_id: 0 }), 18),
        (NFTError::NFTState(StateError::NotAuthorized { actor: 1, token_id: 0 }), 18),
        (NFTError::NFTState(StateError::InvariantFailed), 20),
        (NFTError::NFTState(StateError::Overflow), 20),
        (NFTError::Messaging(MessagingError::Syscall(ErrorNumber::Forbidden)), 18),
        (NFTError::Messaging(MessagingError::AddressNotResolved(Address::new_id(1))), 17),
        (NFTError::Messaging(MessagingError::Ipld), 21),
        (NFTError::Actor(ActorError::NoState), 17),
        (NFTError::Actor(ActorError::RootUpdate(RootUpdateError::ActorDeleted)), 20),
        (NFTError::Actor(ActorError::RootUpdate(RootUpdateError::ReadOnly)), 25),
        (NFTError::Storage(StorageError::Unavailable), 21),
        (NFTError::Receiver(ReceiverHookError::AlreadyCalled), 20),
        (
            NFTError::Receiver(ReceiverHookError::Receiver {
                address: 2,
                exit_code: 5,
                return_data: Vec::new(),
            }),
            18,
        ),
    ];
    for (error, code) in cases {
        assert_eq!(nft_exit_code(&error), code, "{:?}", error);
        assert_ne!(nft_exit_code(&error), 0);
    }
}

fn ledger_bytes(tokens: &[(u64, u64)], owners: &[(u64, u64)], next: u64, supply: u64) -> Vec<u8> {
    let mut out = Vec::new();
    encode_word(tokens.len() as u64, &mut out);
    for (id, owner) in tokens {
        encode_word(*id, &mut out);
        encode_word(*owner, &mut out);
        encode_list(&Vec::new(), &mut out);
        encode_bytes(&Vec::new(), &mut out);
    }
    encode_word(owners.len() as u64, &mut out);
    for (id, balance) in owners {
        encode_word(*id, &mut out);
        encode_word(*balance, &mut out);
        encode_list(&Vec::new(), &mut out);
    }
    encode_word(next, &mut out);
    encode_word(supply, &mut out);
    out
}

#[test]
fn ledger_that_disagrees_with_itself_is_refused_not_trusted() {
    // a token whose owner has no record
    let mut state = NFTState::from_bytes(&ledger_bytes(&[(0, 1)], &[], 1, 1)).unwrap();
    let before = state.to_bytes();
    assert_eq!(state.make_transfer(0, 2), Err(StateError::InvariantFailed));
    assert_eq!(state.burn_tokens(1, &[0]), Err(StateError::InvariantFailed));
    assert_eq!(state.to_bytes(), before);
    // an owner whose balance is zero
    let mut state = NFTState::from_bytes(&ledger_bytes(&[(0, 1)], &[(1, 0)], 1, 1)).unwrap();
    assert_eq!(state.transfer_tokens(1, 2, &[0]), Err(StateError::InvariantFailed));
    // a supply of zero with a live token
    let mut state = NFTState::from_bytes(&ledger_bytes(&[(0, 1)], &[(1, 1)], 1, 0)).unwrap();
    assert_eq!(state.burn_tokens(1, &[0]), Err(StateError::InvariantFailed));
    assert_eq!(state.get_balance(1), 1);
}

#[test]
fn counters_never_wrap() {
    // the last id cannot be handed out, as the next id would not fit
    let mut state = NFTState::from_bytes(&ledger_bytes(&[], &[], u64::MAX, 0)).unwrap();
    assert_eq!(state.mint_tokens(1, &vec![Vec::new()]), Err(StateError::Overflow));
    let mut state = NFTState::from_bytes(&ledger_bytes(&[], &[], u64::MAX - 1, 0)).unwrap();
    let before = state.to_bytes();
    assert_eq!(state.mint_tokens(1, &vec![Vec::new(), Vec::new()]), Err(StateError::Overflow));
    assert_eq!(state.to_bytes(), before);
    assert_eq!(state.mint_tokens(1, &vec![Vec::new()]), Ok(vec![u64::MAX - 1]));
    // the supply
    let mut state = NFTState::from_bytes(&ledger_bytes(&[], &[], 0, u64::MAX)).unwrap();
    assert_eq!(state.mint_tokens(1, &vec![Vec::new()]), Err(StateError::Overflow));
    // a balance
    let mut state =
        NFTState::from_bytes(&ledger_bytes(&[(0, 1)], &[(1, 1), (2, u64::MAX)], 1, 1)).unwrap();
    assert_eq!(state.transfer_tokens(1, 2, &[0]), Err(StateError::Overflow));
    assert_eq!(state.get_owner(0), Ok(1));
    assert_eq!(state.mint_tokens(2, &vec![Vec::new()]), Err(StateError::Overflow));
    // a token supply that is smaller than a balance
    let mut bytes = Vec::new();
    bytes.extend_from_slice(&5u128.to_le_bytes());
    encode_word(1, &mut bytes);
    encode_word(9, &mut bytes);
    bytes.extend_from_slice(&10u128.to_le_bytes());
    encode_word(0, &mut bytes);
    let (mut token, _) = TokenState::decode(&bytes, 0).unwrap();
    assert_eq!(token.burn(1, 9, 6), Err(TokenStateError::InvariantFailed));
    assert_eq!(token.burn(1, 9, 5), Ok(()));
    assert_eq!(token.total_supply(), 0);
    assert_eq!(token.get_balance(9), 5);
}

#[test]
fn map_keeps_its_entries_in_key_order() {
    let mut map: IdMap<u128> = IdMap::new();
    assert_eq!(map.len(), 0);
    assert!(map.get(1).is_none());
    for key in [5u64, 1, 9, 3, 7] {
        map.put(key, (key as u128) * 10);
    }
    map.put(3, 33);
    assert_eq!(map.len(), 5);
    let keys: Vec<u64> = (0..map.len()).map(|i| map.key_at(i)).collect();
    assert_eq!(keys, vec![1, 3, 5, 7, 9]);
    assert_eq!(*map.value_at(1), 33);
    assert_eq!(map.get(3), Some(&33));
    assert_eq!(map.get(4), None);
    assert!(map.contains(9));
    assert!(!map.contains(0));
    assert_eq!(map.delete(5), Some(50));
    assert_eq!(map.delete(5), None);
    assert_eq!(map.len(), 4);
    let copy = map.duplicate();
    map.put(2, 2);
    assert_eq!(copy.len(), 4);
    assert!(!copy.contains(2));

    let mut bytes = vec![0xEE];
    copy.encode(&mut bytes);
    let mut expected = vec![0xEE];
    expected.extend_from_slice(&4u64.to_le_bytes());
    for (k, v) in [(1u64, 10u128), (3, 33), (7, 70), (9, 90)] {
        expected.extend_from_slice(&k.to_le_bytes());
        expected.extend_from_slice(&v.to_le_bytes());
    }
    assert_eq!(bytes, expected);
    let (back, end) = IdMap::<u128>::decode(&bytes, 1).unwrap();
    assert_eq!(end, bytes.len());
    assert_eq!(back.len(), 4);
    assert_eq!(back.get(7), Some(&70));
    // keys that repeat or descend are refused
    let mut twice = Vec::new();
    twice.extend_from_slice(&2u64.to_le_bytes());
    for k in [4u64, 4] {
        twice.extend_from_slice(&k.to_le_bytes());
        twice.extend_from_slice(&0u128.to_le_bytes());
    }
    assert!(IdMap::<u128>::decode(&twice, 0).is_none());
    // a count that promises more than there is
    let mut short = Vec::new();
    short.extend_from_slice(&u64::MAX.to_le_bytes());
    assert!(IdMap::<u128>::decode(&short, 0).is_none());
}

#[test]
fn words_lists_and_byte_strings_are_laid_out_little_endian() {
    let mut out = Vec::new();
    encode_word(0x0102030405060708, &mut out);
    assert_eq!(out, vec![8, 7, 6, 5, 4, 3, 2, 1]);
    assert_eq!(decode_word(&out, 0), Some((0x0102030405060708, 8)));
    assert_eq!(decode_word(&out, 1), None);
    encode_list(&vec![1, 256], &mut out);
    encode_bytes(&vec![0xFF, 0x00, 0x7F], &mut out);
    let mut expected = vec![8, 7, 6, 5, 4, 3, 2, 1];
    expected.extend_from_slice(&[2, 0, 0, 0, 0, 0, 0, 0]);
    expected.extend_from_slice(&[1, 0, 0, 0, 0, 0, 0, 0]);
    expected.extend_from_slice(&[0, 1, 0, 0, 0, 0, 0, 0]);
    expected.extend_from_slice(&[3, 0, 0, 0, 0, 0, 0, 0]);
    expected.extend_from_slice(&[0xFF, 0x00, 0x7F]);
    assert_eq!(out, expected);
    assert_eq!(decode_list(&out, 8), Some((vec![1, 256], 32)));
    assert_eq!(decode_bytes(&out, 32), Some((vec![0xFF, 0x00, 0x7F], 43)));
    // a length that runs past the end
    assert_eq!(decode_bytes(&out, 0), None);
    assert_eq!(decode_list(&out, 0), None);
    assert_eq!(decode_list(&out[..31], 8), None);
    assert_eq!(decode_bytes(&out[..42], 32), None);
}
