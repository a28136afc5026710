use chain_mock::BigNat;
use chain_mock::BlockchainStateWrapper;
use chain_mock::ScCallDenali;
use chain_mock::ScQueryDenali;
use chain_mock::StateChange;
use chain_mock::TxContext;
use chain_mock::TxInputDCT;
use chain_mock::TxPanic;
use chain_mock::denali::Step;

#[test]
fn account_creation_is_recorded() {
    let mut wrapper = BlockchainStateWrapper::new();
    let a = wrapper.create_user_account(&BigNat::from_u64(55));
    let steps = wrapper.denali_steps().steps();
    assert_eq!(steps.len(), 1);
    match &steps[0] {
        Step::SetAccount { account, sc_path } => {
            assert_eq!(account.address.as_bytes(), a.as_bytes());
            assert!(account.moax_balance.eq_value(&BigNat::from_u64(55)));
            assert!(sc_path.is_none());
        },
        _ => panic!("expected a set-account step"),
    }
}

#[test]
fn balance_updates_are_recorded_with_code_path() {
    let mut wrapper = BlockchainStateWrapper::new();
    let sc = wrapper.create_sc_account(
        &BigNat::from_u64(0),
        None,
        b"file:out/demo.wasm".to_vec(),
        b"file:../out/demo.wasm".to_vec(),
    );
    wrapper.set_moax_balance(sc.address_ref(), &BigNat::from_u64(9));
    let steps = wrapper.denali_steps().steps();
    assert_eq!(steps.len(), 2);
    match &steps[1] {
        Step::SetAccount { account, sc_path } => {
            assert!(account.moax_balance.eq_value(&BigNat::from_u64(9)));
            assert_eq!(sc_path.as_ref().unwrap(), &b"file:../out/demo.wasm".to_vec());
        },
        _ => panic!("expected a set-account step"),
    }
}

#[test]
fn check_account_is_recorded_only_for_known_accounts() {
    let mut wrapper = BlockchainStateWrapper::new();
    let a = wrapper.create_user_account(&BigNat::from_u64(1));
    wrapper.add_denali_check_account(&a);
    let unknown = chain_mock::Address::new(vec![9; 32]);
    wrapper.add_denali_check_account(&unknown);
    let steps = wrapper.denali_steps().steps();
    assert_eq!(steps.len(), 2);
    assert!(matches!(&steps[1], Step::CheckAccount { .. }));
}

#[test]
fn call_and_query_records_carry_their_fields() {
    let mut wrapper = BlockchainStateWrapper::new();
    let a = wrapper.create_user_account(&BigNat::from_u64(0));
    let b = wrapper.create_user_account(&BigNat::from_u64(0));
    let mut call = ScCallDenali::new(&a, &b, "doSomething");
    call.add_moax_value(&BigNat::from_u64(12));
    call.add_dct_transfer(&b"TKN".to_vec(), 3, &BigNat::from_u64(4));
    call.add_argument(vec![0, 1]);
    call.set_gas_limit(5000);
    call.set_gas_price(2);
    wrapper.add_denali_sc_call(call, None);

    let mut query = ScQueryDenali::new(&b, "getSomething");
    query.add_argument(vec![7]);
    wrapper.add_denali_sc_query(query, None);

    let steps = wrapper.denali_steps().steps();
    assert_eq!(steps.len(), 4);
    match &steps[2] {
        Step::ScCall { call, expect } => {
            assert_eq!(call.function, "doSomething");
            assert!(call.moax_value.eq_value(&BigNat::from_u64(12)));
            assert_eq!(call.dct.len(), 1);
            assert_eq!(call.dct[0].token_identifier, b"TKN".to_vec());
            assert_eq!(call.dct[0].nonce, 3);
            assert_eq!(call.arguments, vec![vec![0, 1]]);
            assert_eq!(call.gas_limit, 5000);
            assert_eq!(call.gas_price, 2);
            assert!(expect.is_none());
        },
        _ => panic!("expected a call step"),
    }
    match &steps[3] {
        Step::ScQuery { query, expect } => {
            assert_eq!(query.function, "getSomething");
            assert_eq!(query.arguments, vec![vec![7]]);
            assert!(expect.is_none());
        },
        _ => panic!("expected a query step"),
    }
}

#[test]
fn expectations_carry_their_fields() {
    let mut expect = chain_mock::TxExpectDenali::new(4);
    expect.add_out_value(vec![1, 2]);
    expect.set_message("user error");
    assert_eq!(expect.status, 4);
    assert_eq!(expect.out, vec![vec![1, 2]]);
    assert_eq!(expect.message, "user error");
}

#[test]
fn block_setters_update_and_record() {
    let mut wrapper = BlockchainStateWrapper::new();
    wrapper.set_block_epoch(3);
    wrapper.set_block_nonce(40);
    wrapper.set_block_round(5);
    wrapper.set_block_timestamp(1_000_000);
    wrapper.set_block_random_seed(vec![7; 48]);
    wrapper.set_prev_block_epoch(2);
    wrapper.set_prev_block_nonce(39);
    wrapper.set_prev_block_round(4);
    wrapper.set_prev_block_timestamp(999_000);
    wrapper.set_prev_block_random_seed(vec![6; 48]);
    let steps = wrapper.denali_steps().steps();
    assert_eq!(steps.len(), 10);
    match &steps[9] {
        Step::SetBlockInfo { current, previous } => {
            assert_eq!(current.block_epoch, 3);
            assert_eq!(current.block_nonce, 40);
            assert_eq!(current.block_round, 5);
            assert_eq!(current.block_timestamp, 1_000_000);
            assert_eq!(current.block_random_seed, vec![7; 48]);
            assert_eq!(previous.block_epoch, 2);
            assert_eq!(previous.block_nonce, 39);
            assert_eq!(previous.block_round, 4);
            assert_eq!(previous.block_timestamp, 999_000);
            assert_eq!(previous.block_random_seed, vec![6; 48]);
        },
        _ => panic!("expected a block-info step"),
    }
}

#[test]
fn multi_transfer_applies_payments_in_order() {
    let mut wrapper = BlockchainStateWrapper::new();
    let a = wrapper.create_user_account(&BigNat::from_u64(0));
    wrapper.set_nft_balance(&a, &b"AAA".to_vec(), 0, &BigNat::from_u64(6), &Vec::new());
    wrapper.set_nft_balance(&a, &b"BBB".to_vec(), 1, &BigNat::from_u64(2), &vec![8]);
    let sc = wrapper.create_sc_account(
        &BigNat::from_u64(0),
        None,
        b"file:out/demo.wasm".to_vec(),
        b"file:../out/demo.wasm".to_vec(),
    );
    let transfers = vec![
        TxInputDCT {
            token_identifier: b"AAA".to_vec(),
            nonce: 0,
            value: BigNat::from_u64(5),
        },
        TxInputDCT {
            token_identifier: b"BBB".to_vec(),
            nonce: 1,
            value: BigNat::from_u64(2),
        },
    ];
    let result = wrapper.execute_dct_multi_transfer(
        &a,
        &sc,
        &transfers,
        |ctx: TxContext| -> (TxContext, Result<StateChange, TxPanic>) {
            (ctx, Ok(StateChange::Commit))
        },
    ).expect("the payments are affordable");
    assert!(result.is_success());
    assert!(wrapper.get_dct_balance(&a, &b"AAA".to_vec(), 0).eq_value(&BigNat::from_u64(1)));
    assert!(wrapper.get_dct_balance(&a, &b"BBB".to_vec(), 1).is_zero());
    assert!(
        wrapper.get_dct_balance(sc.address_ref(), &b"AAA".to_vec(), 0).eq_value(
            &BigNat::from_u64(5)
        )
    );
    assert!(
        wrapper.get_dct_balance(sc.address_ref(), &b"BBB".to_vec(), 1).eq_value(
            &BigNat::from_u64(2)
        )
    );
}

#[test]
fn payment_round_trip_through_multi_arg() {
    let payment = chain_mock::DctTokenPayment::new(b"TKN".to_vec(), 1, BigNat::from_u64(3));
    let multi = chain_mock::DctTokenPaymentMultiArg::from_payment(payment);
    let back = multi.into_dct_token_payment();
    assert_eq!(back.token_identifier, b"TKN".to_vec());
    assert_eq!(back.token_nonce, 1);
    assert!(back.amount.eq_value(&BigNat::from_u64(3)));
}

#[test]
fn send_descriptions_keep_their_fields() {
    let to = chain_mock::Address::new(vec![3; 32]);
    let dct = chain_mock::SendDct::new(
        to.clone(),
        b"TKN".to_vec(),
        BigNat::from_u64(5),
        b"hello".to_vec(),
    );
    assert_eq!(dct.to.as_bytes(), to.as_bytes());
    assert_eq!(dct.token_identifier, b"TKN".to_vec());
    assert!(dct.amount.eq_value(&BigNat::from_u64(5)));
    let moax = chain_mock::SendMoax::new(to.clone(), BigNat::from_u64(2), Vec::new());
    assert!(moax.amount.eq_value(&BigNat::from_u64(2)));
    assert_eq!(moax.data, Vec::<u8>::new());
}
