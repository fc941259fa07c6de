use token_ledger::actor::{Actor, FakeActor};
use token_ledger::address::{Address, ContentAddress};
use token_ledger::messaging::{FakeMessenger, Messaging, MessagingError};
use token_ledger::nft::{NFTError, NFT};
use token_ledger::nft_state::{Action, Authority, NFTState, StateError};
use token_ledger::receiver::ReceiverHookError;
use token_ledger::store::{Blockstore, MemoryBlockstore, StorageError};

const ALICE_ID: u64 = 1;
const BOB_ID: u64 = 2;
const CAROL_ID: u64 = 3;

fn alice() -> Address {
    Address::new_id(ALICE_ID)
}

fn bob() -> Address {
    Address::new_id(BOB_ID)
}

fn new_handle() -> NFT<MemoryBlockstore, FakeMessenger, FakeActor> {
    let mut bs = MemoryBlockstore::new();
    let state = NFTState::new();
    let msg = FakeMessenger::new(4, 5);
    let root = state.save(&mut bs).unwrap();
    NFT::wrap(bs, msg, FakeActor { root }, state)
}

fn handle_with_three_tokens_for_alice() -> NFT<MemoryBlockstore, FakeMessenger, FakeActor> {
    let mut nft = new_handle();
    let mut hook = nft
        .mint(&alice(), &alice(), vec![Vec::new(); 3], Vec::new(), Vec::new())
        .unwrap();
    hook.call(&nft.msg).unwrap();
    nft
}

#[test]
fn it_transfers_tokens() {
    let mut nft = new_handle();

    {
        // mint tokens to alice
        let mut hook = nft
            .mint(&alice(), &alice(), vec![Vec::new(); 3], Vec::new(), Vec::new())
            .unwrap();
        hook.call(&nft.msg).unwrap();
        // alice: [0, 1, 2]
        // bob: []
    }

    {
        // transfer tokens from alice to bob
        let mut hook = nft
            .transfer(&alice(), &bob(), &[0, 1, 2], Vec::new(), Vec::new())
            .unwrap();
        hook.call(&nft.msg).unwrap();
        // alice: []
        // bob: [0, 1, 2]
    }

    {
        // alice's tokens go to bob
        let alice_balance = nft.balance_of(&alice()).unwrap();
        assert_eq!(alice_balance, 0);
        let bob_balance = nft.balance_of(&bob()).unwrap();
        assert_eq!(bob_balance, 3);
    }

    {
        // alice is denied permission to transfer them back
        let err = nft
            .transfer(&alice(), &alice(), &[0, 1, 2], Vec::new(), Vec::new())
            .unwrap_err();
        if let NFTError::NFTState(StateError::NotOwner { actor, token_id }) = err {
            assert_eq!(actor, ALICE_ID);
            assert_eq!(token_id, 0);
        } else {
            panic!("Unexpected error: {:?}", err);
        }
        // alice: []
        // bob: [0, 1, 2]
    }

    {
        // state didn't change
        let alice_balance = nft.balance_of(&alice()).unwrap();
        assert_eq!(alice_balance, 0);
        let bob_balance = nft.balance_of(&bob()).unwrap();
        assert_eq!(bob_balance, 3);
    }

    {
        // doesn't transfer if any of the token ids are invalid
        let err = nft
            .transfer(&bob(), &alice(), &[0, 1, 2, 3], Vec::new(), Vec::new())
            .unwrap_err();
        if let NFTError::NFTState(StateError::TokenNotFound(token_id)) = err {
            assert_eq!(token_id, 3);
        } else {
            panic!("Unexpected error: {:?}", err);
        }
        // alice: []
        // bob: [0, 1, 2]
    }

    {
        // state didn't change
        let alice_balance = nft.balance_of(&alice()).unwrap();
        assert_eq!(alice_balance, 0);
        let bob_balance = nft.balance_of(&bob()).unwrap();
        assert_eq!(bob_balance, 3);
    }

    {
        // doesn't transfer if there are duplicates
        let err = nft
            .transfer(&bob(), &alice(), &[0, 1, 0], Vec::new(), Vec::new())
            .unwrap_err();
        if let NFTError::NFTState(StateError::NotOwner { actor, token_id }) = err {
            assert_eq!(actor, BOB_ID);
            assert_eq!(token_id, 0);
        } else {
            panic!("Unexpected error: {:?}", err);
        }
        // alice: []
        // bob: [0, 1, 2]
    }

    {
        // state didn't change
        let alice_balance = nft.balance_of(&alice()).unwrap();
        assert_eq!(alice_balance, 0);
        let bob_balance = nft.balance_of(&bob()).unwrap();
        assert_eq!(bob_balance, 3);
    }
}

#[test]
fn owner_of_unminted_token_is_not_found() {
    let nft = handle_with_three_tokens_for_alice();
    assert_eq!(nft.owner_of(0).unwrap(), ALICE_ID);
    assert_eq!(nft.owner_of(2).unwrap(), ALICE_ID);
    for id in [3u64, 4, 1000, u64::MAX] {
        match nft.owner_of(id) {
            Err(NFTError::NFTState(StateError::TokenNotFound(t))) => assert_eq!(t, id),
            other => panic!("unexpected: {:?}", other),
        }
    }
    let empty = new_handle();
    assert!(matches!(
        empty.owner_of(0),
        Err(NFTError::NFTState(StateError::TokenNotFound(0)))
    ));
}

#[test]
fn transfer_moves_ownership_and_balances_and_clears_operators() {
    let mut nft = handle_with_three_tokens_for_alice();
    nft.approve(&alice(), &Address::new_id(CAROL_ID), &[1]).unwrap();
    assert_eq!(nft.state.get_operators(1).unwrap(), vec![CAROL_ID]);
    let before_alice = nft.balance_of(&alice()).unwrap();
    let before_bob = nft.balance_of(&bob()).unwrap();
    let mut hook = nft.transfer(&alice(), &bob(), &[1], Vec::new(), Vec::new()).unwrap();
    let intermediate = hook.call(&nft.msg).unwrap();
    assert_eq!(intermediate.from, ALICE_ID);
    assert_eq!(intermediate.to, BOB_ID);
    assert_eq!(intermediate.token_ids, vec![1]);
    assert_eq!(nft.owner_of(1).unwrap(), BOB_ID);
    assert_eq!(nft.balance_of(&alice()).unwrap(), before_alice - 1);
    assert_eq!(nft.balance_of(&bob()).unwrap(), before_bob + 1);
    assert_eq!(nft.state.get_operators(1).unwrap(), Vec::<u64>::new());
    assert_eq!(nft.total_supply(), 3);
}

#[test]
fn transfer_to_oneself_keeps_the_balance() {
    let mut nft = handle_with_three_tokens_for_alice();
    let mut hook = nft.transfer(&alice(), &alice(), &[0, 0], Vec::new(), Vec::new()).unwrap();
    hook.call(&nft.msg).unwrap();
    assert_eq!(nft.balance_of(&alice()).unwrap(), 3);
    assert_eq!(nft.owner_of(0).unwrap(), ALICE_ID);
}

#[test]
fn flush_then_load_gives_the_same_state() {
    let mut nft = handle_with_three_tokens_for_alice();
    let mut hook = nft.transfer(&alice(), &bob(), &[2], Vec::new(), Vec::new()).unwrap();
    hook.call(&nft.msg).unwrap();
    nft.approve_for_owner(&alice(), &Address::new_id(CAROL_ID)).unwrap();
    let address = nft.flush().unwrap();
    let loaded = NFTState::load(&nft.bs, &address).unwrap();
    assert_eq!(loaded.total_supply(), 3);
    assert_eq!(loaded.next_token(), 3);
    assert_eq!(loaded.get_balance(ALICE_ID), 2);
    assert_eq!(loaded.get_balance(BOB_ID), 1);
    assert_eq!(loaded.get_owner(0).unwrap(), ALICE_ID);
    assert_eq!(loaded.get_owner(2).unwrap(), BOB_ID);
    assert!(loaded.is_approved_for_all(ALICE_ID, CAROL_ID));
    assert_eq!(loaded.to_bytes(), nft.state.to_bytes());
    // flushing again gives the same address, and the store keeps one block for it
    let blocks = nft.bs.len();
    let again = nft.flush().unwrap();
    assert!(again.same(&address));
    assert_eq!(nft.bs.len(), blocks);
}

#[test]
fn layout_of_a_state_is_exact() {
    let mut state = NFTState::new();
    assert_eq!(state.to_bytes(), vec![0u8; 32]);
    state.mint_tokens(7, &vec![vec![0xAAu8, 0xBB]]).unwrap();
    let mut expected: Vec<u8> = Vec::new();
    // token table: one entry
    expected.extend_from_slice(&1u64.to_le_bytes());
    expected.extend_from_slice(&0u64.to_le_bytes()); // token id
    expected.extend_from_slice(&7u64.to_le_bytes()); // owner
    expected.extend_from_slice(&0u64.to_le_bytes()); // no operators
    expected.extend_from_slice(&2u64.to_le_bytes()); // metadata length
    expected.extend_from_slice(&[0xAA, 0xBB]);
    // owner table: one entry
    expected.extend_from_slice(&1u64.to_le_bytes());
    expected.extend_from_slice(&7u64.to_le_bytes()); // account
    expected.extend_from_slice(&1u64.to_le_bytes()); // balance
    expected.extend_from_slice(&0u64.to_le_bytes()); // no operators
    expected.extend_from_slice(&1u64.to_le_bytes()); // next token
    expected.extend_from_slice(&1u64.to_le_bytes()); // supply
    assert_eq!(state.to_bytes(), expected);
    let back = NFTState::from_bytes(&expected).unwrap();
    assert_eq!(back.get_owner(0).unwrap(), 7);
    assert_eq!(back.get_metadata(0).unwrap(), vec![0xAA, 0xBB]);
}

#[test]
fn corrupt_blocks_are_refused() {
    let state = {
        let mut s = NFTState::new();
        s.mint_tokens(1, &vec![Vec::new(), Vec::new()]).unwrap();
        s
    };
    let good = state.to_bytes();
    assert!(NFTState::from_bytes(&good).is_some());
    // truncated
    assert!(NFTState::from_bytes(&good[..good.len() - 1]).is_none());
    // trailing byte
    let mut long = good.clone();
    long.push(0);
    assert!(NFTState::from_bytes(&long).is_none());
    // empty
    assert!(NFTState::from_bytes(&[]).is_none());
    // keys out of order: swap the ids of the two tokens
    let mut swapped = good.clone();
    swapped[8] = 1;
    assert!(NFTState::from_bytes(&swapped).is_none());
    // a token id that is not below the next id
    let mut stale = good.clone();
    let n = stale.len();
    stale[n - 16] = 1;
    assert!(NFTState::from_bytes(&stale).is_none());

    let mut bs = MemoryBlockstore::new();
    let address = bs.put(&long).unwrap();
    assert!(matches!(NFTState::load(&bs, &address), Err(StorageError::Corrupt)));
    let nowhere = ContentAddress::from_bytes(vec![1, 2, 3]);
    assert!(matches!(NFTState::load(&bs, &nowhere), Err(StorageError::Missing)));
}

#[test]
fn revoking_what_was_never_approved_changes_nothing() {
    let mut nft = handle_with_three_tokens_for_alice();
    let before = nft.state.to_bytes();
    // an operator that was never approved
    nft.revoke(&alice(), &Address::new_id(CAROL_ID), &[0, 1]).unwrap();
    assert_eq!(nft.state.to_bytes(), before);
    nft.revoke_for_all(&alice(), &Address::new_id(CAROL_ID)).unwrap();
    assert_eq!(nft.state.to_bytes(), before);
    // an operator whose address never resolved to an account
    let unresolved = Address::Actor(vec![9u8; 20]);
    assert!(nft.msg.resolve_id(&unresolved).is_err());
    nft.revoke(&alice(), &unresolved, &[0, 1]).unwrap();
    assert_eq!(nft.state.to_bytes(), before);
    nft.revoke_for_all(&alice(), &unresolved).unwrap();
    assert_eq!(nft.state.to_bytes(), before);
    // and for an owner that holds nothing
    nft.revoke_for_all(&bob(), &Address::new_id(CAROL_ID)).unwrap();
    assert_eq!(nft.state.to_bytes(), before);
}

#[test]
fn approving_and_revoking_per_token() {
    let mut nft = handle_with_three_tokens_for_alice();
    let carol = Address::new_id(CAROL_ID);
    nft.approve(&alice(), &carol, &[0, 2]).unwrap();
    nft.approve(&alice(), &carol, &[0]).unwrap();
    assert_eq!(nft.state.get_operators(0).unwrap(), vec![CAROL_ID]);
    assert_eq!(nft.state.get_operators(1).unwrap(), Vec::<u64>::new());
    assert_eq!(nft.state.get_operators(2).unwrap(), vec![CAROL_ID]);
    // carol may move token 0 but not token 1
    let err = nft.transfer_from(&carol, &bob(), &[0, 1], Vec::new(), Vec::new()).unwrap_err();
    assert!(matches!(
        err,
        NFTError::NFTState(StateError::NotAuthorized { actor: CAROL_ID, token_id: 1 })
    ));
    assert_eq!(nft.owner_of(0).unwrap(), ALICE_ID);
    let mut hook = nft.transfer_from(&carol, &bob(), &[0], Vec::new(), Vec::new()).unwrap();
    hook.call(&nft.msg).unwrap();
    assert_eq!(nft.owner_of(0).unwrap(), BOB_ID);
    // approving needs ownership
    let err = nft.approve(&bob(), &carol, &[1]).unwrap_err();
    assert!(matches!(
        err,
        NFTError::NFTState(StateError::NotOwner { actor: BOB_ID, token_id: 1 })
    ));
    nft.revoke(&alice(), &carol, &[2]).unwrap();
    assert_eq!(nft.state.get_operators(2).unwrap(), Vec::<u64>::new());
}

#[test]
fn account_wide_operator_grants_and_withdraws_approvals() {
    let mut nft = handle_with_three_tokens_for_alice();
    let carol = Address::new_id(CAROL_ID);
    let dave = Address::new_id(9);
    // bob is nobody to alice: refused as no owner, and nothing changes
    let before = nft.state.to_bytes();
    for r in [nft.approve(&bob(), &dave, &[0, 1]), nft.revoke(&bob(), &dave, &[0, 1])] {
        assert!(matches!(
            r,
            Err(NFTError::NFTState(StateError::NotOwner { actor: BOB_ID, token_id: 0 }))
        ));
    }
    assert_eq!(nft.state.to_bytes(), before);
    // an approval for one token does not entitle to manage it
    nft.approve(&alice(), &carol, &[0]).unwrap();
    assert!(matches!(
        nft.approve(&carol, &dave, &[0]),
        Err(NFTError::NFTState(StateError::NotOwner { actor: CAROL_ID, token_id: 0 }))
    ));
    nft.revoke(&alice(), &carol, &[0]).unwrap();
    assert_eq!(nft.state.to_bytes(), before);
    // once alice approved bob for all her tokens, bob stands in for her
    nft.approve_for_owner(&alice(), &bob()).unwrap();
    let before = nft.state.to_bytes();
    // revoking an operator that is approved for none of the tokens changes nothing, twice
    nft.revoke(&bob(), &dave, &[0, 1]).unwrap();
    nft.revoke(&bob(), &dave, &[0, 1]).unwrap();
    assert_eq!(nft.state.to_bytes(), before);
    nft.approve(&bob(), &dave, &[0, 2]).unwrap();
    assert_eq!(nft.state.get_operators(0).unwrap(), vec![9]);
    assert_eq!(nft.state.get_operators(1).unwrap(), Vec::<u64>::new());
    assert_eq!(nft.state.get_operators(2).unwrap(), vec![9]);
    nft.revoke(&bob(), &dave, &[0]).unwrap();
    assert_eq!(nft.state.get_operators(0).unwrap(), Vec::<u64>::new());
    assert_eq!(nft.state.get_operators(2).unwrap(), vec![9]);
    // an id that is not live is not found, whoever asks
    assert!(matches!(
        nft.approve(&bob(), &dave, &[1, 7]),
        Err(NFTError::NFTState(StateError::TokenNotFound(7)))
    ));
    assert_eq!(nft.state.get_operators(1).unwrap(), Vec::<u64>::new());
    // bob loses the standing with the account-wide approval
    nft.revoke_for_all(&alice(), &bob()).unwrap();
    assert!(matches!(
        nft.revoke(&bob(), &dave, &[2]),
        Err(NFTError::NFTState(StateError::NotOwner { actor: BOB_ID, token_id: 2 }))
    ));
    assert_eq!(nft.state.check(Authority::Manager(ALICE_ID), 2), Ok(()));
    assert_eq!(
        nft.state.check(Authority::Manager(BOB_ID), 2),
        Err(StateError::NotOwner { actor: BOB_ID, token_id: 2 })
    );
}

#[test]
fn refused_batch_in_place_changes_nothing_but_the_steps_before() {
    let mut state = NFTState::new();
    state.mint_tokens(ALICE_ID, &vec![vec![7u8], vec![8u8], vec![9u8]]).unwrap();
    let mut expected = state.duplicate();
    expected.apply(Authority::Owner(ALICE_ID), Action::Transfer { to: BOB_ID }, &[0, 1]).unwrap();
    let r = state.apply(Authority::Owner(ALICE_ID), Action::Transfer { to: BOB_ID }, &[0, 1, 0, 2]);
    assert_eq!(r, Err(StateError::NotOwner { actor: ALICE_ID, token_id: 0 }));
    assert_eq!(state.to_bytes(), expected.to_bytes());
    assert_eq!(state.get_owner(2).unwrap(), ALICE_ID);
}

#[test]
fn account_wide_approval_survives_transfers() {
    let mut nft = handle_with_three_tokens_for_alice();
    let carol = Address::new_id(CAROL_ID);
    nft.approve_for_owner(&alice(), &carol).unwrap();
    assert!(nft.state.is_approved_for_all(ALICE_ID, CAROL_ID));
    let mut hook = nft.transfer(&alice(), &bob(), &[0], Vec::new(), Vec::new()).unwrap();
    hook.call(&nft.msg).unwrap();
    assert!(nft.state.is_approved_for_all(ALICE_ID, CAROL_ID));
    // carol can still move what alice holds, but not what bob holds now
    assert!(nft.state.approved_for_token(CAROL_ID, 1).is_ok());
    assert_eq!(
        nft.state.approved_for_token(CAROL_ID, 0),
        Err(StateError::NotAuthorized { actor: CAROL_ID, token_id: 0 })
    );
    nft.burn_for(CAROL_ID, &[1]).unwrap();
    assert_eq!(nft.total_supply(), 2);
    nft.revoke_for_all(&alice(), &carol).unwrap();
    assert!(!nft.state.is_approved_for_all(ALICE_ID, CAROL_ID));
}

#[test]
fn batch_with_a_duplicate_fails_at_the_second_occurrence() {
    let mut nft = handle_with_three_tokens_for_alice();
    let before = nft.state.to_bytes();
    let err = nft.transfer(&alice(), &bob(), &[0, 1, 0], Vec::new(), Vec::new()).unwrap_err();
    assert!(matches!(
        err,
        NFTError::NFTState(StateError::NotOwner { actor: ALICE_ID, token_id: 0 })
    ));
    assert_eq!(nft.balance_of(&alice()).unwrap(), 3);
    assert_eq!(nft.balance_of(&bob()).unwrap(), 0);
    assert_eq!(nft.state.to_bytes(), before);
}

#[test]
fn batch_with_a_missing_id_fails_and_changes_nothing() {
    let mut nft = handle_with_three_tokens_for_alice();
    let before = nft.state.to_bytes();
    let err = nft.transfer(&alice(), &bob(), &[0, 1, 2, 3], Vec::new(), Vec::new()).unwrap_err();
    assert!(matches!(err, NFTError::NFTState(StateError::TokenNotFound(3))));
    assert_eq!(nft.balance_of(&alice()).unwrap(), 3);
    assert_eq!(nft.balance_of(&bob()).unwrap(), 0);
    assert_eq!(nft.state.to_bytes(), before);
    let err = nft.burn(ALICE_ID, &[0, 7]).unwrap_err();
    assert!(matches!(err, NFTError::NFTState(StateError::TokenNotFound(7))));
    assert_eq!(nft.state.to_bytes(), before);
}

#[test]
fn batch_in_place_keeps_the_steps_before_the_refusal() {
    let mut state = NFTState::new();
    state.mint_tokens(ALICE_ID, &vec![Vec::new(); 2]).unwrap();
    let r = state.apply(Authority::Owner(ALICE_ID), Action::Transfer { to: BOB_ID }, &[0, 5]);
    assert_eq!(r, Err(StateError::TokenNotFound(5)));
    assert_eq!(state.get_owner(0).unwrap(), BOB_ID);
    let mut state = NFTState::new();
    state.mint_tokens(ALICE_ID, &vec![Vec::new(); 2]).unwrap();
    let r = state.execute(Authority::Owner(ALICE_ID), Action::Transfer { to: BOB_ID }, &[0, 5]);
    assert_eq!(r, Err(StateError::TokenNotFound(5)));
    assert_eq!(state.get_owner(0).unwrap(), ALICE_ID);
}

#[test]
fn burnt_ids_are_never_handed_out_again() {
    let mut nft = handle_with_three_tokens_for_alice();
    assert_eq!(nft.burn(ALICE_ID, &[2, 0]).unwrap(), 1);
    assert_eq!(nft.total_supply(), 1);
    assert!(matches!(
        nft.owner_of(2),
        Err(NFTError::NFTState(StateError::TokenNotFound(2)))
    ));
    let mut hook = nft.mint(&alice(), &bob(), vec![vec![1u8], vec![2u8]], Vec::new(), Vec::new()).unwrap();
    let minted = hook.call(&nft.msg).unwrap();
    assert_eq!(minted.token_ids, vec![3, 4]);
    assert_eq!(minted.to, BOB_ID);
    assert_eq!(nft.metadata(4).unwrap(), vec![2u8]);
    assert_eq!(nft.total_supply(), 3);
    assert!(matches!(
        nft.owner_of(0),
        Err(NFTError::NFTState(StateError::TokenNotFound(0)))
    ));
    // only the owner burns
    let err = nft.burn(ALICE_ID, &[3]).unwrap_err();
    assert!(matches!(
        err,
        NFTError::NFTState(StateError::NotOwner { actor: ALICE_ID, token_id: 3 })
    ));
}

#[test]
fn reentrant_transfer_during_the_hook_is_seen_by_transfer_return() {
    let mut nft = handle_with_three_tokens_for_alice();
    let mut hook = nft.transfer(&alice(), &bob(), &[0, 1, 2], Vec::new(), Vec::new()).unwrap();
    let prior = nft.commit().unwrap();
    assert!(nft.actor.root_cid().unwrap().same(&prior));

    // what bob's receiver does while it is being notified: it hands token 1 on to carol
    let mut reentered = NFTState::load(&nft.bs, &prior).unwrap();
    reentered.transfer_tokens(BOB_ID, CAROL_ID, &[1]).unwrap();
    let changed = reentered.save(&mut nft.bs).unwrap();
    nft.actor.set_root(&changed).unwrap();

    let intermediate = hook.call(&nft.msg).unwrap();
    // the handle's own state is stale here
    assert_eq!(nft.state.get_balance(BOB_ID), 3);
    let ret = nft.transfer_return(intermediate, &prior).unwrap();
    assert_eq!(ret.from_balance, 0);
    assert_eq!(ret.to_balance, 2);
    assert_eq!(ret.token_ids, vec![0, 1, 2]);
    assert_eq!(nft.owner_of(1).unwrap(), CAROL_ID);
    assert_eq!(nft.balance_of(&Address::new_id(CAROL_ID)).unwrap(), 1);
}

#[test]
fn transfer_return_keeps_the_state_when_the_root_is_unchanged() {
    let mut nft = handle_with_three_tokens_for_alice();
    let mut hook = nft.transfer(&alice(), &bob(), &[0], Vec::new(), Vec::new()).unwrap();
    let prior = nft.commit().unwrap();
    let intermediate = hook.call(&nft.msg).unwrap();
    assert!(nft.reload_if_changed(&prior).unwrap().is_none());
    let ret = nft.transfer_return(intermediate, &prior).unwrap();
    assert_eq!(ret.from_balance, 2);
    assert_eq!(ret.to_balance, 1);
    // a root that the store does not hold cannot be loaded, and the state stays
    nft.actor.set_root(&ContentAddress::from_bytes(vec![0u8; 4])).unwrap();
    let before = nft.state.to_bytes();
    assert!(matches!(
        nft.reload_if_changed(&prior),
        Err(NFTError::Storage(StorageError::Missing))
    ));
    assert_eq!(nft.state.to_bytes(), before);
}

#[test]
fn hook_is_called_exactly_once() {
    let mut nft = handle_with_three_tokens_for_alice();
    let mut hook = nft.transfer(&alice(), &bob(), &[0], Vec::new(), Vec::new()).unwrap();
    assert!(hook.is_pending());
    assert_eq!(hook.recipient(), BOB_ID);
    assert!(hook.call(&nft.msg).is_ok());
    assert!(!hook.is_pending());
    assert!(matches!(hook.call(&nft.msg), Err(ReceiverHookError::AlreadyCalled)));
    assert!(matches!(hook.call(&nft.msg), Err(ReceiverHookError::AlreadyCalled)));
}

#[test]
fn receiver_that_refuses_is_reported_with_its_exit_code() {
    let mut nft = handle_with_three_tokens_for_alice();
    // the fake receiver refuses whatever comes with operator data
    let mut hook = nft.transfer(&alice(), &bob(), &[0], vec![7u8, 8], Vec::new()).unwrap();
    match hook.call(&nft.msg) {
        Err(ReceiverHookError::Receiver { address, exit_code, return_data }) => {
            assert_eq!(address, BOB_ID);
            assert_eq!(exit_code, 5);
            assert_eq!(return_data, vec![7u8, 8]);
        }
        other => panic!("unexpected: {:?}", other),
    }
    // the transfer itself is not undone by the refusal
    assert_eq!(nft.owner_of(0).unwrap(), BOB_ID);
}

#[test]
fn balance_of_an_address_without_account_is_zero() {
    let nft = handle_with_three_tokens_for_alice();
    assert_eq!(nft.balance_of(&Address::Actor(vec![1u8; 20])).unwrap(), 0);
    assert_eq!(nft.balance_of(&Address::Bls(vec![1u8; 48])).unwrap(), 0);
    assert_eq!(nft.balance_of(&Address::new_id(77)).unwrap(), 0);
    // a secp256k1 address resolves to the fixed id of the fake
    assert_eq!(nft.balance_of(&Address::Secp256k1(vec![1u8; 20])).unwrap(), 0);
}

#[test]
fn addresses_are_resolved_or_initialised() {
    let msg = FakeMessenger::new(4, 5);
    assert_eq!(msg.resolve_id(&Address::new_id(9)).unwrap(), 9);
    assert_eq!(msg.resolve_id(&Address::Secp256k1(vec![0u8; 20])).unwrap(), 100);
    assert!(matches!(
        msg.resolve_id(&Address::Bls(vec![0u8; 48])),
        Err(MessagingError::AddressNotResolved(_))
    ));
    let r = token_ledger::messaging::resolve_or_init(&msg, &Address::Bls(vec![0u8; 48]));
    assert_eq!(r.unwrap(), 5);
    let r = token_ledger::messaging::resolve_or_init(&msg, &Address::Actor(vec![0u8; 20]));
    assert!(matches!(r, Err(MessagingError::AddressNotInitialised(_))));
    assert_eq!(FakeMessenger::default().first_id, 101);

    // a transfer to an address that cannot get an account changes nothing
    let mut nft = handle_with_three_tokens_for_alice();
    let before = nft.state.to_bytes();
    let err = nft
        .transfer(&alice(), &Address::Actor(vec![0u8; 20]), &[0], Vec::new(), Vec::new())
        .unwrap_err();
    assert!(matches!(err, NFTError::Messaging(MessagingError::AddressNotInitialised(_))));
    assert_eq!(nft.state.to_bytes(), before);
    // a transfer to a BLS address creates the account
    let mut hook = nft
        .transfer(&alice(), &Address::Bls(vec![0u8; 48]), &[0], Vec::new(), Vec::new())
        .unwrap();
    hook.call(&nft.msg).unwrap();
    assert_eq!(nft.owner_of(0).unwrap(), 5);
}

#[test]
fn transaction_commits_on_success_and_drops_on_failure() {
    let mut nft = handle_with_three_tokens_for_alice();
    let before = nft.state.to_bytes();
    let r: Result<u64, NFTError> = nft.transaction(|state, _store| {
        state.make_transfer(0, BOB_ID).map_err(NFTError::NFTState)?;
        state.make_transfer(9, BOB_ID).map_err(NFTError::NFTState)?;
        Ok(1)
    });
    assert!(matches!(r, Err(NFTError::NFTState(StateError::TokenNotFound(9)))));
    assert_eq!(nft.state.to_bytes(), before);
    let r: Result<u64, NFTError> = nft.transaction(|state, _store| {
        state.make_transfer(0, BOB_ID).map_err(NFTError::NFTState)?;
        Ok(state.get_balance(BOB_ID))
    });
    assert_eq!(r.unwrap(), 1);
    assert_eq!(nft.owner_of(0).unwrap(), BOB_ID);
}
