use chain_mock::BigNat;
use chain_mock::BlockchainStateWrapper;
use chain_mock::StateChange;
use chain_mock::TxContext;
use chain_mock::TxPanic;
use chain_mock::tokens::DctInstanceMetadata;

fn meta_with_attributes(attributes: Vec<u8>) -> DctInstanceMetadata {
    let mut m = DctInstanceMetadata::default();
    m.attributes = attributes;
    m
}

#[test]
fn native_transfer_commits() {
    // Account A holds 100 native coins, B starts at 0; transferring 30
    // leaves A = 70, B = 30 and yields the empty success result.
    let mut wrapper = BlockchainStateWrapper::new();
    let a = wrapper.create_user_account(&BigNat::from_u64(100));
    let b = wrapper.create_sc_account(
        &BigNat::from_u64(0),
        None,
        b"file:out/demo.wasm".to_vec(),
        b"file:../out/demo.wasm".to_vec(),
    );
    let result = wrapper.execute_tx(
        &a,
        &b,
        &BigNat::from_u64(30),
        |ctx: TxContext| -> (TxContext, Result<StateChange, TxPanic>) {
            (ctx, Ok(StateChange::Commit))
        },
    ).expect("the payment is affordable");
    assert!(result.is_success());
    assert_eq!(result.message, "");
    assert!(wrapper.check_moax_balance(&a, &BigNat::from_u64(70)));
    assert!(wrapper.check_moax_balance(b.address_ref(), &BigNat::from_u64(30)));
}

#[test]
fn unaffordable_transfer_aborts_before_dispatch() {
    // Account A holds only 10; attempting to pay 50 aborts with the
    // insufficient-funds failure and changes neither balance.
    let mut wrapper = BlockchainStateWrapper::new();
    let a = wrapper.create_user_account(&BigNat::from_u64(10));
    let b = wrapper.create_sc_account(
        &BigNat::from_u64(0),
        None,
        b"file:out/demo.wasm".to_vec(),
        b"file:../out/demo.wasm".to_vec(),
    );
    let failure = wrapper.execute_tx(
        &a,
        &b,
        &BigNat::from_u64(50),
        |_ctx: TxContext| -> (TxContext, Result<StateChange, TxPanic>) {
            panic!("the body must not run when setup fails");
        },
    ).unwrap_err();
    assert_eq!(failure.status, 10);
    assert_eq!(failure.message, "failed transfer (insufficient funds)");
    assert!(wrapper.check_moax_balance(&a, &BigNat::from_u64(10)));
    assert!(wrapper.check_moax_balance(b.address_ref(), &BigNat::from_u64(0)));
}

#[test]
fn mint_keeps_first_metadata() {
    // Mint "TKN" nonce 1 with balance 5 and attributes [1,2,3]; a later
    // credit of 3 with attributes [9,9,9] leaves balance 8 and the original
    // attributes.
    let mut wrapper = BlockchainStateWrapper::new();
    let a = wrapper.create_user_account(&BigNat::from_u64(0));
    wrapper.set_nft_balance(&a, &b"TKN".to_vec(), 1, &BigNat::from_u64(5), &vec![1, 2, 3]);
    let sc = wrapper.create_sc_account(
        &BigNat::from_u64(0),
        None,
        b"file:out/demo.wasm".to_vec(),
        b"file:../out/demo.wasm".to_vec(),
    );
    let a_for_body = a.clone();
    let result = wrapper.execute_tx(
        &a,
        &sc,
        &BigNat::from_u64(0),
        move |mut ctx: TxContext| -> (TxContext, Result<StateChange, TxPanic>) {
            ctx.cache.increase_dct_balance(
                &a_for_body,
                &b"TKN".to_vec(),
                1,
                &BigNat::from_u64(3),
                meta_with_attributes(vec![9, 9, 9]),
            );
            (ctx, Ok(StateChange::Commit))
        },
    ).expect("the setup has no payment to fail on");
    assert!(result.is_success());
    let balance = wrapper.get_dct_balance(&a, &b"TKN".to_vec(), 1);
    assert!(balance.eq_value(&BigNat::from_u64(8)));
    assert_eq!(wrapper.get_nft_attributes(&a, &b"TKN".to_vec(), 1), Some(vec![1, 2, 3]));
    assert!(wrapper.check_nft_balance(
        &a,
        &b"TKN".to_vec(),
        1,
        &BigNat::from_u64(8),
        &vec![1, 2, 3],
    ));
}

#[test]
fn revert_discards_what_commit_would_keep() {
    // The same mutation run twice from the same state: the Revert run leaves
    // the world as it was; the Commit run applies it.
    let mut wrapper = BlockchainStateWrapper::new();
    let a = wrapper.create_user_account(&BigNat::from_u64(100));
    let sc = wrapper.create_sc_account(
        &BigNat::from_u64(0),
        None,
        b"file:out/demo.wasm".to_vec(),
        b"file:../out/demo.wasm".to_vec(),
    );
    let a1 = a.clone();
    let result = wrapper.execute_tx(
        &a,
        &sc,
        &BigNat::from_u64(0),
        move |mut ctx: TxContext| -> (TxContext, Result<StateChange, TxPanic>) {
            ctx.cache.subtract_moax_balance(&a1, &BigNat::from_u64(40)).unwrap();
            (ctx, Ok(StateChange::Revert))
        },
    ).expect("the setup has no payment to fail on");
    assert!(result.is_success());
    assert!(wrapper.check_moax_balance(&a, &BigNat::from_u64(100)));

    let a2 = a.clone();
    let result = wrapper.execute_tx(
        &a,
        &sc,
        &BigNat::from_u64(0),
        move |mut ctx: TxContext| -> (TxContext, Result<StateChange, TxPanic>) {
            ctx.cache.subtract_moax_balance(&a2, &BigNat::from_u64(40)).unwrap();
            (ctx, Ok(StateChange::Commit))
        },
    ).expect("the setup has no payment to fail on");
    assert!(result.is_success());
    assert!(wrapper.check_moax_balance(&a, &BigNat::from_u64(60)));
}

#[test]
fn query_leaves_world_untouched() {
    // A query body that attempts a mutation: the dispatched call is forced
    // to revert, so the world shows no observable change.
    let mut wrapper = BlockchainStateWrapper::new();
    let sc = wrapper.create_sc_account(
        &BigNat::from_u64(77),
        None,
        b"file:out/demo.wasm".to_vec(),
        b"file:../out/demo.wasm".to_vec(),
    );
    let sc_addr = sc.address_ref().clone();
    let result = wrapper.execute_query(
        &sc,
        move |mut ctx: TxContext| -> (TxContext, Result<(), TxPanic>) {
            ctx.cache.subtract_moax_balance(&sc_addr, &BigNat::from_u64(50)).unwrap();
            (ctx, Ok(()))
        },
    );
    assert!(result.is_success());
    assert!(wrapper.check_moax_balance(sc.address_ref(), &BigNat::from_u64(77)));
}

#[test]
fn contract_failure_is_caught_at_dispatch() {
    // A contract-defined failure raised inside the body is converted into a
    // structured result; nothing is folded back.
    let mut wrapper = BlockchainStateWrapper::new();
    let a = wrapper.create_user_account(&BigNat::from_u64(100));
    let sc = wrapper.create_sc_account(
        &BigNat::from_u64(0),
        None,
        b"file:out/demo.wasm".to_vec(),
        b"file:../out/demo.wasm".to_vec(),
    );
    let a1 = a.clone();
    let result = wrapper.execute_tx(
        &a,
        &sc,
        &BigNat::from_u64(0),
        move |mut ctx: TxContext| -> (TxContext, Result<StateChange, TxPanic>) {
            ctx.cache.subtract_moax_balance(&a1, &BigNat::from_u64(5)).unwrap();
            (ctx, Err(TxPanic::new(4, "user error".to_owned())))
        },
    ).expect("a body failure is caught at dispatch, not handed to the caller");
    assert_eq!(result.status, 4);
    assert_eq!(result.message, "user error");
    assert!(wrapper.check_moax_balance(&a, &BigNat::from_u64(100)));
}

#[test]
fn token_payment_travels_in_setup() {
    let mut wrapper = BlockchainStateWrapper::new();
    let a = wrapper.create_user_account(&BigNat::from_u64(0));
    wrapper.set_nft_balance(&a, &b"TKN".to_vec(), 2, &BigNat::from_u64(10), &vec![5]);
    let sc = wrapper.create_sc_account(
        &BigNat::from_u64(0),
        None,
        b"file:out/demo.wasm".to_vec(),
        b"file:../out/demo.wasm".to_vec(),
    );
    let result = wrapper.execute_dct_transfer(
        &a,
        &sc,
        &b"TKN".to_vec(),
        2,
        &BigNat::from_u64(4),
        |ctx: TxContext| -> (TxContext, Result<StateChange, TxPanic>) {
            (ctx, Ok(StateChange::Commit))
        },
    ).expect("the payment is affordable");
    assert!(result.is_success());
    assert!(wrapper.get_dct_balance(&a, &b"TKN".to_vec(), 2).eq_value(&BigNat::from_u64(6)));
    assert!(
        wrapper
            .get_dct_balance(sc.address_ref(), &b"TKN".to_vec(), 2)
            .eq_value(&BigNat::from_u64(4))
    );
    // Metadata travelled with the payment.
    assert_eq!(
        wrapper.get_nft_attributes(sc.address_ref(), &b"TKN".to_vec(), 2),
        Some(vec![5])
    );
}

#[test]
fn unaffordable_token_payment_aborts() {
    let mut wrapper = BlockchainStateWrapper::new();
    let a = wrapper.create_user_account(&BigNat::from_u64(0));
    wrapper.set_nft_balance(&a, &b"TKN".to_vec(), 0, &BigNat::from_u64(3), &Vec::new());
    let sc = wrapper.create_sc_account(
        &BigNat::from_u64(0),
        None,
        b"file:out/demo.wasm".to_vec(),
        b"file:../out/demo.wasm".to_vec(),
    );
    let failure = wrapper.execute_dct_transfer(
        &a,
        &sc,
        &b"TKN".to_vec(),
        0,
        &BigNat::from_u64(5),
        |_ctx: TxContext| -> (TxContext, Result<StateChange, TxPanic>) {
            panic!("the body must not run when setup fails");
        },
    ).unwrap_err();
    assert_eq!(failure.status, 10);
    assert_eq!(failure.message, "insufficient funds");
    assert!(wrapper.get_dct_balance(&a, &b"TKN".to_vec(), 0).eq_value(&BigNat::from_u64(3)));
}

#[test]
fn zero_payment_touches_no_balance() {
    let mut wrapper = BlockchainStateWrapper::new();
    let a = wrapper.create_user_account(&BigNat::from_u64(5));
    let sc = wrapper.create_sc_account(
        &BigNat::from_u64(0),
        None,
        b"file:out/demo.wasm".to_vec(),
        b"file:../out/demo.wasm".to_vec(),
    );
    let result = wrapper.execute_tx(
        &a,
        &sc,
        &BigNat::from_u64(0),
        |ctx: TxContext| -> (TxContext, Result<StateChange, TxPanic>) {
            (ctx, Ok(StateChange::Commit))
        },
    ).expect("a zero payment cannot fail setup");
    assert!(result.is_success());
    assert!(wrapper.check_moax_balance(&a, &BigNat::from_u64(5)));
    assert!(wrapper.check_moax_balance(sc.address_ref(), &BigNat::from_u64(0)));
}

#[test]
fn fresh_accounts_get_distinct_addresses() {
    let mut wrapper = BlockchainStateWrapper::new();
    let a = wrapper.create_user_account(&BigNat::from_u64(0));
    let b = wrapper.create_user_account(&BigNat::from_u64(0));
    let sc = wrapper.create_sc_account(
        &BigNat::from_u64(0),
        None,
        b"file:out/demo.wasm".to_vec(),
        b"file:../out/demo.wasm".to_vec(),
    );
    assert_ne!(a.as_bytes(), b.as_bytes());
    assert_ne!(a.as_bytes(), sc.address_ref().as_bytes());
    // Contract addresses carry the leading zero run, user addresses do not.
    assert_eq!(sc.address_ref().as_bytes()[0], 0);
    assert_ne!(a.as_bytes()[0], 0);
}
