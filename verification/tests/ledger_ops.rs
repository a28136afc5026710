use chain_mock::bignat::BigNat;
use chain_mock::tokens::AccountDct;
use chain_mock::tokens::DctData;
use chain_mock::tokens::DctInstanceMetadata;
use chain_mock::world::AccountStorage;

fn meta_with_attributes(attributes: Vec<u8>) -> DctInstanceMetadata {
    let mut m = DctInstanceMetadata::default();
    m.attributes = attributes;
    m
}

#[test]
fn balance_of_untouched_token_is_zero() {
    let ledger = AccountDct::new_empty();
    let b = ledger.get_dct_balance(&b"TKN".to_vec(), 0);
    assert!(b.is_zero());
}

#[test]
fn increase_then_read_back() {
    let mut ledger = AccountDct::new_empty();
    ledger.increase_balance(
        b"TKN".to_vec(),
        0,
        &BigNat::from_u64(25),
        DctInstanceMetadata::default(),
    );
    ledger.increase_balance(
        b"TKN".to_vec(),
        0,
        &BigNat::from_u64(17),
        DctInstanceMetadata::default(),
    );
    let b = ledger.get_dct_balance(&b"TKN".to_vec(), 0);
    assert!(b.eq_value(&BigNat::from_u64(42)));
}

#[test]
fn set_balance_overwrites() {
    let mut ledger = AccountDct::new_empty();
    ledger.set_dct_balance(b"TKN".to_vec(), 0, &BigNat::from_u64(5), DctInstanceMetadata::default());
    ledger.set_dct_balance(b"TKN".to_vec(), 0, &BigNat::from_u64(9), DctInstanceMetadata::default());
    let b = ledger.get_dct_balance(&b"TKN".to_vec(), 0);
    assert!(b.eq_value(&BigNat::from_u64(9)));
}

#[test]
fn metadata_is_written_once_per_nonce() {
    let mut ledger = AccountDct::new_empty();
    ledger.increase_balance(b"TKN".to_vec(), 1, &BigNat::from_u64(5), meta_with_attributes(vec![1, 2, 3]));
    // A later mint of the same nonce supplies different attributes, which
    // must not replace the recorded ones.
    ledger.increase_balance(b"TKN".to_vec(), 1, &BigNat::from_u64(3), meta_with_attributes(vec![9, 9, 9]));
    let b = ledger.get_dct_balance(&b"TKN".to_vec(), 1);
    assert!(b.eq_value(&BigNat::from_u64(8)));
    let data = ledger.get_by_identifier(&b"TKN".to_vec()).expect("token record");
    let inst = data.instances.get_by_nonce(1).expect("instance");
    assert_eq!(inst.metadata.attributes, vec![1, 2, 3]);
}

#[test]
fn distinct_nonces_have_distinct_instances() {
    let mut ledger = AccountDct::new_empty();
    ledger.increase_balance(b"TKN".to_vec(), 1, &BigNat::from_u64(1), meta_with_attributes(vec![1]));
    ledger.increase_balance(b"TKN".to_vec(), 2, &BigNat::from_u64(1), meta_with_attributes(vec![2]));
    let data = ledger.get_by_identifier(&b"TKN".to_vec()).expect("token record");
    assert_eq!(data.instances.get_by_nonce(1).unwrap().metadata.attributes, vec![1]);
    assert_eq!(data.instances.get_by_nonce(2).unwrap().metadata.attributes, vec![2]);
    assert!(data.instances.get_by_nonce(3).is_none());
}

#[test]
fn roles_replace_previous_set() {
    let mut ledger = AccountDct::new_empty();
    ledger.set_roles(b"TKN".to_vec(), vec![b"DCTRoleLocalMint".to_vec()]);
    ledger.set_roles(
        b"TKN".to_vec(),
        vec![b"DCTRoleLocalMint".to_vec(), b"DCTRoleLocalBurn".to_vec()],
    );
    let roles = ledger.get_roles(&b"TKN".to_vec());
    assert_eq!(roles.len(), 2);
    assert_eq!(roles[0], b"DCTRoleLocalMint".to_vec());
    assert_eq!(roles[1], b"DCTRoleLocalBurn".to_vec());
}

#[test]
fn roles_of_untouched_token_are_empty() {
    let ledger = AccountDct::new_empty();
    assert!(ledger.get_roles(&b"TKN".to_vec()).is_empty());
}

#[test]
fn empty_record_reports_empty() {
    let data = DctData::default_data();
    assert!(data.is_empty());
    let mut ledger = AccountDct::new_empty();
    ledger.increase_balance(b"TKN".to_vec(), 1, &BigNat::from_u64(1), DctInstanceMetadata::default());
    let data = ledger.get_by_identifier_or_default(&b"TKN".to_vec());
    assert!(!data.is_empty());
}

#[test]
fn new_from_raw_map_keeps_records() {
    let mut record = DctData::default_data();
    record.token_identifier = b"TKN".to_vec();
    record.instances.increase_balance(0, &BigNat::from_u64(4), DctInstanceMetadata::default());
    let ledger = AccountDct::new_from_raw_map(vec![record]);
    assert!(ledger.get_dct_balance(&b"TKN".to_vec(), 0).eq_value(&BigNat::from_u64(4)));
}

#[test]
fn storage_set_and_get() {
    let mut storage = AccountStorage::new_empty();
    assert!(storage.get(&b"key".to_vec()).is_none());
    storage.set(b"key".to_vec(), b"value".to_vec());
    assert_eq!(storage.get(&b"key".to_vec()).unwrap(), &b"value".to_vec());
    storage.set(b"key".to_vec(), b"other".to_vec());
    assert_eq!(storage.get(&b"key".to_vec()).unwrap(), &b"other".to_vec());
}

#[test]
fn last_nonce_tracks_the_highest_minted_nonce() {
    let mut ledger = AccountDct::new_empty();
    ledger.increase_balance(b"TKN".to_vec(), 1, &BigNat::from_u64(1), DctInstanceMetadata::default());
    assert_eq!(ledger.get_by_identifier(&b"TKN".to_vec()).unwrap().last_nonce, 1);
    // A later, higher nonce raises the high-water mark ...
    ledger.increase_balance(b"TKN".to_vec(), 7, &BigNat::from_u64(1), DctInstanceMetadata::default());
    assert_eq!(ledger.get_by_identifier(&b"TKN".to_vec()).unwrap().last_nonce, 7);
    // ... and a later, lower one does not pull it back down.
    ledger.set_dct_balance(b"TKN".to_vec(), 3, &BigNat::from_u64(1), DctInstanceMetadata::default());
    assert_eq!(ledger.get_by_identifier(&b"TKN".to_vec()).unwrap().last_nonce, 7);
}

#[test]
fn raw_records_are_deduplicated_keeping_the_earliest() {
    let mut first = DctData::default_data();
    first.token_identifier = b"TKN".to_vec();
    first.instances.increase_balance(0, &BigNat::from_u64(4), DctInstanceMetadata::default());
    let mut second = DctData::default_data();
    second.token_identifier = b"TKN".to_vec();
    second.instances.increase_balance(0, &BigNat::from_u64(9), DctInstanceMetadata::default());
    let ledger = AccountDct::new_from_raw_map(vec![first, second]);
    // The earliest record wins, and the duplicate does not survive into the
    // stored records.
    assert!(ledger.get_dct_balance(&b"TKN".to_vec(), 0).eq_value(&BigNat::from_u64(4)));
    assert_eq!(ledger.iter().len(), 1);
}
