use fvm_ipld_blockstore::Blockstore as IpldStore;
use multihash_codetable::{Code, MultihashDigest};
use token_ledger::actor::{Actor, FakeActor, FakeRuntime};
use token_ledger::address::Address;
use token_ledger::factory::RuntimeError;
use token_ledger::messaging::FakeMessenger;
use token_ledger::token::{BurnParams, IncreaseAllowanceParams};
use token_ledger::address::{ContentAddress, IPLD_RAW};
use token_ledger::dispatch::{
    check_method_name, Blake2bHasher, Hasher, IllegalNameErr, MethodMessenger, MethodName,
    MethodMessengerError, MethodNameErr, MethodResolver, Response,
};
use token_ledger::factory::FactoryToken;
use token_ledger::invoke::{
    constructor, disable_mint_invoke, frc46_invoke, frc46_method, invoke, nft_method,
    token_actor_method, Frc46Method, Frc46Request, Frc46Return, MintParams, NftMethod, NftRequest,
    NftReturn, TokenActorMethod,
};
use token_ledger::messaging::ErrorNumber;
use token_ledger::nft::NFT;
use token_ledger::store::{Blockstore, MemoryBlockstore};

fn expected_number(name: &str) -> u64 {
    let tagged = format!("1|{}", name);
    let digest = blake2b_simd::blake2b(tagged.as_bytes());
    for chunk in digest.as_bytes().chunks(4) {
        let n = u32::from_be_bytes([chunk[0], chunk[1], chunk[2], chunk[3]]) as u64;
        if n >= (1 << 24) {
            return n;
        }
    }
    panic!("no number");
}

#[test]
fn method_numbers_follow_the_convention() {
    let resolver = MethodResolver::new(Blake2bHasher {});
    assert_eq!(resolver.method_number("Constructor"), Ok(1));
    for name in ["Transfer", "TransferFrom", "Mint", "Burn", "Name", "Symbol", "_private", "A1_b"] {
        assert_eq!(resolver.method_number(name), Ok(expected_number(name)), "{}", name);
    }
    // numbers that deployed actors export
    assert_eq!(resolver.method_number("Transfer"), Ok(80475954));
    assert_eq!(resolver.method_number("Mint"), Ok(116935346));
    assert_eq!(resolver.method_number("Name"), Ok(48890204));
    assert_eq!(resolver.method_number("Symbol"), Ok(2061153854));
    assert_eq!(resolver.method_number("TotalSupply"), Ok(114981429));
    assert_eq!(resolver.method_number("Allowance"), Ok(4205072950));
    assert_eq!(resolver.method_number("Burn"), Ok(1434719642));
    assert_eq!(resolver.method_number("TransferFrom"), Ok(3621052141));
    assert_eq!(resolver.method_number("Receive"), Ok(3726118371));
}

#[test]
fn method_names_are_checked() {
    let resolver = MethodResolver::new(Blake2bHasher {});
    assert_eq!(resolver.method_number(""), Err(MethodNameErr::EmptyString));
    assert_eq!(
        resolver.method_number("transfer"),
        Err(MethodNameErr::IllegalName(IllegalNameErr::NotValidStart))
    );
    assert_eq!(
        resolver.method_number("1Transfer"),
        Err(MethodNameErr::IllegalName(IllegalNameErr::NotValidStart))
    );
    assert_eq!(
        resolver.method_number("Trans fer"),
        Err(MethodNameErr::IllegalName(IllegalNameErr::IllegalCharacters))
    );
    assert_eq!(
        resolver.method_number("Transf\u{e9}r"),
        Err(MethodNameErr::IllegalName(IllegalNameErr::IllegalCharacters))
    );
    assert_eq!(check_method_name(b"_"), Ok(()));
    assert_eq!(check_method_name(b"Z9_z"), Ok(()));
    assert_eq!(
        check_method_name(b"Z-"),
        Err(MethodNameErr::IllegalName(IllegalNameErr::IllegalCharacters))
    );
}

struct FixedHasher {
    digest: Vec<u8>,
}

impl Hasher for FixedHasher {
    fn hash(&self, _bytes: &[u8]) -> Vec<u8> {
        self.digest.clone()
    }
}

#[test]
fn first_usable_chunk_of_the_digest_is_the_number() {
    let with = |digest: Vec<u8>| MethodResolver::new(FixedHasher { digest }).method_number("Method");
    // the first chunk is reserved (below 1 << 24), the second is taken
    assert_eq!(with(vec![0, 255, 255, 255, 1, 0, 0, 0]), Ok(1 << 24));
    assert_eq!(with(vec![0, 0, 0, 1, 0, 0, 0, 2, 255, 255, 255, 255]), Ok(0xFFFF_FFFF));
    assert_eq!(with(vec![1, 2, 3, 4]), Ok(0x01020304));
    // no usable chunk
    assert_eq!(with(vec![0, 0, 0, 1]), Err(MethodNameErr::IndeterminableId));
    assert_eq!(with(vec![]), Err(MethodNameErr::IndeterminableId));
    // a chunk that is cut short is no number
    assert_eq!(with(vec![0, 0, 0, 1, 9, 9, 9]), Err(MethodNameErr::IndeterminableId));
    // the constructor does not depend on the hash
    assert_eq!(
        MethodResolver::new(FixedHasher { digest: vec![] }).method_number("Constructor"),
        Ok(1)
    );
}

#[test]
fn messenger_sends_the_number_of_the_name() {
    let messenger = MethodMessenger::new(Blake2bHasher {});
    let mut seen = None;
    let r = messenger.call_method("Transfer", |number| {
        seen = Some(number);
        Ok(Response { exit_code: 0, return_data: Some(vec![1]) })
    });
    assert_eq!(seen, Some(80475954));
    assert_eq!(r.unwrap().return_data, Some(vec![1]));
    let r = messenger.call_method("Transfer", |_| Err(ErrorNumber::NotFound));
    assert!(matches!(r, Err(MethodMessengerError::Syscall(ErrorNumber::NotFound))));
    let mut sent = false;
    let r = messenger.call_method("not a name", |_| {
        sent = true;
        Ok(Response { exit_code: 0, return_data: None })
    });
    assert!(matches!(
        r,
        Err(MethodMessengerError::MethodName(MethodNameErr::IllegalName(
            IllegalNameErr::NotValidStart
        )))
    ));
    assert!(!sent);
}

#[test]
fn content_address_is_the_cid_of_the_block() {
    for data in [&b""[..], &b"a"[..], &[0u8; 100][..]] {
        let expected = cid::Cid::new_v1(0x55, Code::Blake2b256.digest(data)).to_bytes();
        assert_eq!(ContentAddress::of_block(data).bytes, expected);
        assert_ne!(ContentAddress::of_block(data).bytes, data.to_vec());
    }
    assert_eq!(IPLD_RAW, fvm_ipld_encoding::IPLD_RAW);
    // the store in memory gives out the addresses that the store of the IPLD crate gives out
    let ipld_store = fvm_ipld_blockstore::MemoryBlockstore::new();
    let block = fvm_ipld_blockstore::Block::new(fvm_ipld_encoding::IPLD_RAW, b"block".to_vec());
    let cid = ipld_store.put(Code::Blake2b256, &block).unwrap();
    let mut bs = MemoryBlockstore::new();
    let address = bs.put(b"block").unwrap();
    assert_eq!(address.bytes, cid.to_bytes());
    assert_eq!(bs.get(&address).unwrap(), Some(b"block".to_vec()));
    assert_eq!(bs.get(&ContentAddress::of_block(b"other")).unwrap(), None);
    assert!(!ContentAddress::of_block(b"other").same(&address));
    assert!(address.duplicate().same(&address));
}

#[test]
fn store_keeps_every_block_under_its_address() {
    let mut bs = MemoryBlockstore::new();
    let a = bs.put(b"one").unwrap();
    let b = bs.put(b"two").unwrap();
    let a2 = bs.put(b"one").unwrap();
    assert!(a.same(&a2));
    assert_eq!(bs.len(), 2);
    assert_eq!(bs.get(&a).unwrap(), Some(b"one".to_vec()));
    assert_eq!(bs.get(&b).unwrap(), Some(b"two".to_vec()));
}

#[test]
fn method_numbers_route_to_operations() {
    let resolver = MethodResolver::new(Blake2bHasher {});
    assert_eq!(frc46_method(&resolver, 80475954), Some(Frc46Method::Transfer));
    assert_eq!(frc46_method(&resolver, 3621052141), Some(Frc46Method::TransferFrom));
    assert_eq!(frc46_method(&resolver, 48890204), Some(Frc46Method::Name));
    assert_eq!(frc46_method(&resolver, expected_number("BalanceOf")), Some(Frc46Method::BalanceOf));
    assert_eq!(
        frc46_method(&resolver, expected_number("RevokeAllowance")),
        Some(Frc46Method::RevokeAllowance)
    );
    assert_eq!(frc46_method(&resolver, expected_number("Mint")), None);
    assert_eq!(frc46_method(&resolver, 0), None);
    assert_eq!(frc46_method(&resolver, 1), None);
    assert_eq!(nft_method(&resolver, 1), Some(NftMethod::Constructor));
    assert_eq!(nft_method(&resolver, expected_number("Mint")), Some(NftMethod::Mint));
    assert_eq!(nft_method(&resolver, expected_number("ApproveForAll")), Some(NftMethod::ApproveForAll));
    assert_eq!(nft_method(&resolver, expected_number("TransferFrom")), Some(NftMethod::TransferFrom));
    assert_eq!(nft_method(&resolver, expected_number("Name")), None);
    assert_eq!(nft_method(&resolver, 2), None);
}

#[test]
fn requests_to_a_collection_are_served() {
    let mut bs = MemoryBlockstore::new();
    let mut actor = FakeActor { root: ContentAddress::from_bytes(Vec::new()) };
    let state = constructor(&mut bs, &mut actor).unwrap();
    let mut handle = NFT::wrap(bs, FakeMessenger::new(4, 5), actor, state);
    let r = invoke(&mut handle, 1, NftRequest::Mint(MintParams { metadata: vec![vec![1], vec![2]] }));
    match r.unwrap() {
        NftReturn::Mint(ret) => {
            assert_eq!(ret.balance, 2);
            assert_eq!(ret.supply, 2);
            assert_eq!(ret.token_ids, vec![0, 1]);
        }
        other => panic!("unexpected: {:?}", other),
    }
    assert!(matches!(
        invoke(&mut handle, 1, NftRequest::TotalSupply).unwrap(),
        NftReturn::TotalSupply(2)
    ));
    let r = invoke(
        &mut handle,
        1,
        NftRequest::Transfer(token_ledger::nft::TransferParams {
            to: Address::new_id(2),
            token_ids: vec![1],
            operator_data: Vec::new(),
        }),
    );
    match r.unwrap() {
        NftReturn::Transfer(ret) => {
            assert_eq!(ret.from_balance, 1);
            assert_eq!(ret.to_balance, 1);
        }
        other => panic!("unexpected: {:?}", other),
    }
    assert!(matches!(invoke(&mut handle, 2, NftRequest::Burn(vec![1])).unwrap(), NftReturn::NoData));
    // the root of the actor is the state as it is now
    let root = handle.actor.root_cid().unwrap();
    let loaded = token_ledger::nft_state::NFTState::load(&handle.bs, &root).unwrap();
    assert_eq!(loaded.to_bytes(), handle.state.to_bytes());
    assert_eq!(loaded.total_supply(), 1);
}

#[test]
fn requests_to_a_token_are_served() {
    let runtime = FakeRuntime {
        messenger: FakeMessenger::default(),
        actor: FakeActor { root: ContentAddress::from_bytes(Vec::new()) },
        caller: 1,
    };
    let mut token = FactoryToken::new(
        runtime,
        MemoryBlockstore::new(),
        b"Token".to_vec(),
        b"TKN".to_vec(),
        1,
        Some(1),
    );
    token.mint(token_ledger::factory::MintParams { initial_owner: Address::new_id(1), amount: 9, operator_data: Vec::new() }).unwrap();
    let flush = |t: &mut FactoryToken<MemoryBlockstore, FakeRuntime>| -> Result<(), RuntimeError> {
        let cid = t.save()?;
        t.runtime.set_root(&cid).map_err(RuntimeError::StateUpdate)
    };
    match frc46_invoke(Frc46Request::Name, &mut token, flush).unwrap() {
        Frc46Return::Name(n) => assert_eq!(n, b"Token".to_vec()),
        other => panic!("unexpected: {:?}", other),
    }
    match frc46_invoke(Frc46Request::TotalSupply, &mut token, flush).unwrap() {
        Frc46Return::TotalSupply(n) => assert_eq!(n, 9),
        other => panic!("unexpected: {:?}", other),
    }
    match frc46_invoke(Frc46Request::BalanceOf(Address::new_id(1)), &mut token, flush).unwrap() {
        Frc46Return::Balance(n) => assert_eq!(n, 9),
        other => panic!("unexpected: {:?}", other),
    }
    let r = frc46_invoke(
        Frc46Request::IncreaseAllowance(IncreaseAllowanceParams {
            operator: Address::new_id(2),
            increase: 4,
        }),
        &mut token,
        flush,
    );
    assert!(matches!(r.unwrap(), Frc46Return::Allowance(4)));
    match frc46_invoke(Frc46Request::Burn(BurnParams { amount: 3 }), &mut token, flush).unwrap() {
        Frc46Return::Burn(ret) => assert_eq!(ret.balance, 6),
        other => panic!("unexpected: {:?}", other),
    }
    // the state was flushed and made the root after the burn
    let root = token.runtime.root_cid().unwrap();
    let loaded = token_ledger::factory::FactoryTokenState::load(&token.bs, &root).unwrap();
    assert_eq!(loaded.token.total_supply(), 6);
    assert_eq!(loaded.token.get_allowance_between(1, 2), 4);
}

#[test]
fn identifiers_name_methods_in_pascal_case() {
    let resolver = MethodResolver::new(Blake2bHasher {});
    assert_eq!(
        MethodName::Ident(String::from("transfer_from")).hash(),
        resolver.method_number("TransferFrom")
    );
    assert_eq!(MethodName::Ident(String::from("mint")).hash(), Ok(116935346));
    assert_eq!(MethodName::Text(String::from("Mint")).hash(), Ok(116935346));
    // text is taken as it stands
    assert_eq!(
        MethodName::Text(String::from("transfer_from")).hash(),
        Err(MethodNameErr::IllegalName(IllegalNameErr::NotValidStart))
    );
    assert_eq!(MethodName::Ident(String::new()).hash(), Err(MethodNameErr::EmptyString));
}

#[test]
fn method_numbers_name_the_operations_of_the_token_actor() {
    let resolver = MethodResolver::new(Blake2bHasher {});
    assert_eq!(token_actor_method(&resolver, 1), Some(TokenActorMethod::Constructor));
    assert_eq!(token_actor_method(&resolver, 116935346), Some(TokenActorMethod::Mint));
    assert_eq!(
        token_actor_method(&resolver, resolver.method_number("DisableMint").unwrap()),
        Some(TokenActorMethod::DisableMint)
    );
    assert_eq!(
        token_actor_method(&resolver, 80475954),
        Some(TokenActorMethod::Frc46(Frc46Method::Transfer))
    );
    assert_eq!(
        token_actor_method(&resolver, 3621052141),
        Some(TokenActorMethod::Frc46(Frc46Method::TransferFrom))
    );
    assert_eq!(
        token_actor_method(&resolver, 48890204),
        Some(TokenActorMethod::Frc46(Frc46Method::Name))
    );
    for number in [0u64, 2, 3726118371, u64::MAX] {
        assert_eq!(token_actor_method(&resolver, number), None);
    }
}

#[test]
fn disabling_minting_is_flushed_once_and_only_when_permitted() {
    let runtime = |caller: u64| FakeRuntime {
        messenger: FakeMessenger::default(),
        actor: FakeActor { root: ContentAddress::from_bytes(Vec::new()) },
        caller,
    };
    let new_token = |caller: u64| {
        FactoryToken::new(runtime(caller), MemoryBlockstore::new(), Vec::new(), Vec::new(), 1, Some(1))
    };
    let mut flushes = 0;
    let mut token = new_token(2);
    let r = disable_mint_invoke(&mut token, |t: &mut FactoryToken<MemoryBlockstore, FakeRuntime>| {
        flushes += 1;
        let cid = t.save()?;
        t.runtime.set_root(&cid).map_err(RuntimeError::StateUpdate)
    });
    assert!(matches!(r, Err(RuntimeError::AddressNotAuthorized)));
    assert_eq!(flushes, 0);
    assert_eq!(token.state.minter, Some(1));
    assert_eq!(token.bs.len(), 0);

    let mut token = new_token(1);
    let r = disable_mint_invoke(&mut token, |t: &mut FactoryToken<MemoryBlockstore, FakeRuntime>| {
        flushes += 1;
        let cid = t.save()?;
        t.runtime.set_root(&cid).map_err(RuntimeError::StateUpdate)
    });
    assert!(r.is_ok());
    assert_eq!(flushes, 1);
    assert_eq!(token.state.minter, None);
    let root = token.runtime.root_cid().unwrap();
    let loaded = token_ledger::factory::FactoryTokenState::load(&token.bs, &root).unwrap();
    assert_eq!(loaded.minter, None);
    // the error of the flush is the result
    let mut token = new_token(1);
    let r = disable_mint_invoke(&mut token, |_t: &mut FactoryToken<MemoryBlockstore, FakeRuntime>| {
        Err(RuntimeError::NoState)
    });
    assert!(matches!(r, Err(RuntimeError::NoState)));
    assert_eq!(token.state.minter, None);
}
