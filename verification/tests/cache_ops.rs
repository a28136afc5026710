use chain_mock::Address;
use chain_mock::BigNat;
use chain_mock::TxCache;
use chain_mock::tokens::AccountDct;
use chain_mock::tokens::DctInstanceMetadata;
use chain_mock::world::AccountData;
use chain_mock::world::AccountStorage;
use chain_mock::world::BlockchainMock;

fn addr(tag: u8) -> Address {
    Address::new(vec![tag; 32])
}

fn account(tag: u8, native: u64) -> AccountData {
    AccountData {
        address: addr(tag),
        nonce: 0,
        moax_balance: BigNat::from_u64(native),
        storage: AccountStorage::new_empty(),
        dct: AccountDct::new_empty(),
        username: Vec::new(),
        contract_path: None,
        contract_owner: None,
    }
}

fn world_with(accounts: Vec<AccountData>) -> BlockchainMock {
    let mut world = BlockchainMock::new();
    for acc in accounts {
        world.add_account(acc);
    }
    world
}

fn meta_with_attributes(attributes: Vec<u8>) -> DctInstanceMetadata {
    let mut m = DctInstanceMetadata::default();
    m.attributes = attributes;
    m
}

#[test]
fn native_debit_and_credit() {
    let world = world_with(vec![account(1, 100), account(2, 0)]);
    let mut cache = TxCache::new(world);
    cache.subtract_moax_balance(&addr(1), &BigNat::from_u64(30)).expect("affordable");
    cache.increase_moax_balance(&addr(2), &BigNat::from_u64(30));
    let a = cache.get_account(&addr(1)).unwrap();
    let b = cache.get_account(&addr(2)).unwrap();
    assert!(a.moax_balance.eq_value(&BigNat::from_u64(70)));
    assert!(b.moax_balance.eq_value(&BigNat::from_u64(30)));
}

#[test]
fn native_debit_rejected_when_insufficient() {
    let world = world_with(vec![account(1, 10)]);
    let mut cache = TxCache::new(world);
    let err = cache.subtract_moax_balance(&addr(1), &BigNat::from_u64(50)).unwrap_err();
    assert_eq!(err.status, 10);
    assert_eq!(err.message, "failed transfer (insufficient funds)");
    // The rejected debit changed nothing: the balance is not clamped.
    let a = cache.get_account(&addr(1)).unwrap();
    assert!(a.moax_balance.eq_value(&BigNat::from_u64(10)));
}

#[test]
fn cache_reads_fall_through_to_snapshot() {
    let world = world_with(vec![account(1, 42)]);
    let cache = TxCache::new(world);
    let a = cache.get_account(&addr(1)).unwrap();
    assert!(a.moax_balance.eq_value(&BigNat::from_u64(42)));
    assert!(cache.get_account(&addr(9)).is_none());
}

#[test]
fn token_transfer_moves_value_and_metadata() {
    let mut sender = account(1, 0);
    sender.dct.increase_balance(
        b"TKN".to_vec(),
        7,
        &BigNat::from_u64(5),
        meta_with_attributes(vec![1, 2, 3]),
    );
    let world = world_with(vec![sender, account(2, 0)]);
    let mut cache = TxCache::new(world);
    cache
        .transfer_dct_balance(&addr(1), &addr(2), &b"TKN".to_vec(), 7, &BigNat::from_u64(2))
        .expect("affordable");
    let a = cache.get_account(&addr(1)).unwrap();
    let b = cache.get_account(&addr(2)).unwrap();
    assert!(a.dct.get_dct_balance(&b"TKN".to_vec(), 7).eq_value(&BigNat::from_u64(3)));
    assert!(b.dct.get_dct_balance(&b"TKN".to_vec(), 7).eq_value(&BigNat::from_u64(2)));
    // Metadata travels with the value: the receiver's instance carries the
    // sender's recorded attributes.
    let data = b.dct.get_by_identifier(&b"TKN".to_vec()).unwrap();
    assert_eq!(data.instances.get_by_nonce(7).unwrap().metadata.attributes, vec![1, 2, 3]);
}

#[test]
fn token_transfer_fails_fast_leaving_receiver_untouched() {
    let mut sender = account(1, 0);
    sender.dct.increase_balance(
        b"TKN".to_vec(),
        0,
        &BigNat::from_u64(1),
        DctInstanceMetadata::default(),
    );
    let world = world_with(vec![sender, account(2, 0)]);
    let mut cache = TxCache::new(world);
    let err = cache
        .transfer_dct_balance(&addr(1), &addr(2), &b"TKN".to_vec(), 0, &BigNat::from_u64(2))
        .unwrap_err();
    assert_eq!(err.status, 10);
    assert_eq!(err.message, "insufficient funds");
    let a = cache.get_account(&addr(1)).unwrap();
    let b = cache.get_account(&addr(2)).unwrap();
    assert!(a.dct.get_dct_balance(&b"TKN".to_vec(), 0).eq_value(&BigNat::from_u64(1)));
    assert!(b.dct.get_dct_balance(&b"TKN".to_vec(), 0).is_zero());
}

#[test]
fn token_debit_of_unknown_identifier_fails() {
    let world = world_with(vec![account(1, 0)]);
    let mut cache = TxCache::new(world);
    let err = cache
        .subtract_dct_balance(&addr(1), &b"NOPE".to_vec(), 0, &BigNat::from_u64(1))
        .unwrap_err();
    assert_eq!(err.status, 10);
    assert_eq!(err.message, "insufficient funds");
}

#[test]
fn gas_prepayment_debits_the_product() {
    let world = world_with(vec![account(1, 1000)]);
    let mut cache = TxCache::new(world);
    cache.subtract_tx_gas(&addr(1), 30, 7).expect("affordable");
    let a = cache.get_account(&addr(1)).unwrap();
    assert!(a.moax_balance.eq_value(&BigNat::from_u64(790)));
}

#[test]
fn gas_prepayment_rejected_when_unaffordable() {
    let world = world_with(vec![account(1, 100)]);
    let mut cache = TxCache::new(world);
    let err = cache.subtract_tx_gas(&addr(1), 30, 7).unwrap_err();
    assert_eq!(err.status, 10);
    assert_eq!(err.message, "Not enough balance to pay gas upfront");
    let a = cache.get_account(&addr(1)).unwrap();
    assert!(a.moax_balance.eq_value(&BigNat::from_u64(100)));
}

#[test]
fn credit_creates_instance_with_supplied_metadata() {
    let world = world_with(vec![account(1, 0)]);
    let mut cache = TxCache::new(world);
    cache.increase_dct_balance(
        &addr(1),
        &b"TKN".to_vec(),
        3,
        &BigNat::from_u64(4),
        meta_with_attributes(vec![7]),
    );
    let a = cache.get_account(&addr(1)).unwrap();
    let data = a.dct.get_by_identifier(&b"TKN".to_vec()).unwrap();
    assert_eq!(data.instances.get_by_nonce(3).unwrap().metadata.attributes, vec![7]);
    assert!(a.dct.get_dct_balance(&b"TKN".to_vec(), 3).eq_value(&BigNat::from_u64(4)));
}

#[test]
fn self_transfer_leaves_balance_unchanged() {
    let mut holder = account(1, 0);
    holder.dct.increase_balance(
        b"TKN".to_vec(),
        0,
        &BigNat::from_u64(5),
        meta_with_attributes(vec![4, 4]),
    );
    let world = world_with(vec![holder]);
    let mut cache = TxCache::new(world);
    cache
        .transfer_dct_balance(&addr(1), &addr(1), &b"TKN".to_vec(), 0, &BigNat::from_u64(3))
        .expect("affordable");
    let a = cache.get_account(&addr(1)).unwrap();
    assert!(a.dct.get_dct_balance(&b"TKN".to_vec(), 0).eq_value(&BigNat::from_u64(5)));
    let data = a.dct.get_by_identifier(&b"TKN".to_vec()).unwrap();
    assert_eq!(data.instances.get_by_nonce(0).unwrap().metadata.attributes, vec![4, 4]);
}
