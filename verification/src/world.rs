//! The world state: accounts with native balances, storage and token
//! ledgers, plus current and previous block metadata.

use vstd::prelude::*;

use crate::address::Address;
use crate::address::bytes_eq;
use crate::bignat::BigNat;
use crate::tokens::AccountDct;
use crate::tokens::DctDataV;
use crate::tokens::opt_address_view;
use crate::tokens::opt_bytes_view;
use crate::tokens::token_balance_of;

verus! {

/// One key/value pair of an account's byte-string store.
pub struct StorageEntry {
    pub key: Vec<u8>,
    pub value: Vec<u8>,
}

impl Clone for StorageEntry {
    /// A clone has the same key and value.
    fn clone(&self) -> (r: Self)
        ensures
            r.key@ == self.key@,
            r.value@ == self.value@,
    {
        StorageEntry { key: self.key.clone(), value: self.value.clone() }
    }
}

/// The storage map of a sequence of entries: key to value, the earliest
/// entry for a key taking precedence.
pub open spec fn storage_map(s: Seq<StorageEntry>) -> Map<Seq<u8>, Seq<u8>>
    decreases s.len(),
{
    if s.len() == 0 {
        Map::empty()
    } else {
        storage_map(s.drop_first()).insert(s[0].key@, s[0].value@)
    }
}

proof fn lemma_storage_map_first_match(s: Seq<StorageEntry>, k: Seq<u8>, i: int)
    requires
        0 <= i < s.len(),
        s[i].key@ == k,
        forall|j: int| 0 <= j < i ==> s[j].key@ != k,
    ensures
        storage_map(s).contains_key(k),
        storage_map(s)[k] == s[i].value@,
    decreases s.len(),
{
    if i == 0 {
    } else {
        lemma_storage_map_first_match(s.drop_first(), k, i - 1);
    }
}

proof fn lemma_storage_map_absent(s: Seq<StorageEntry>, k: Seq<u8>)
    requires
        forall|j: int| 0 <= j < s.len() ==> s[j].key@ != k,
    ensures
        !storage_map(s).contains_key(k),
    decreases s.len(),
{
    if s.len() > 0 {
        lemma_storage_map_absent(s.drop_first(), k);
    }
}

proof fn lemma_storage_map_update(s: Seq<StorageEntry>, i: int, e: StorageEntry)
    requires
        0 <= i < s.len(),
        s[i].key@ == e.key@,
        forall|j: int| 0 <= j < i ==> s[j].key@ != e.key@,
    ensures
        storage_map(s.update(i, e)) == storage_map(s).insert(e.key@, e.value@),
    decreases s.len(),
{
    if i == 0 {
        assert(s.update(0, e).drop_first() =~= s.drop_first());
        assert(storage_map(s.update(0, e)) =~= storage_map(s).insert(e.key@, e.value@));
    } else {
        lemma_storage_map_update(s.drop_first(), i - 1, e);
        assert(s.update(i, e).drop_first() =~= s.drop_first().update(i - 1, e));
        assert(storage_map(s.update(i, e)) =~= storage_map(s).insert(e.key@, e.value@));
    }
}

proof fn lemma_storage_map_push(s: Seq<StorageEntry>, e: StorageEntry)
    requires
        forall|j: int| 0 <= j < s.len() ==> s[j].key@ != e.key@,
    ensures
        storage_map(s.push(e)) == storage_map(s).insert(e.key@, e.value@),
    decreases s.len(),
{
    if s.len() == 0 {
        reveal_with_fuel(storage_map, 2);
        assert(s.push(e).drop_first() =~= Seq::<StorageEntry>::empty());
        assert(storage_map(s.push(e)) =~= storage_map(s).insert(e.key@, e.value@));
    } else {
        lemma_storage_map_push(s.drop_first(), e);
        assert(s.push(e).drop_first() =~= s.drop_first().push(e));
        assert(storage_map(s.push(e)) =~= storage_map(s).insert(e.key@, e.value@));
    }
}

proof fn lemma_storage_map_congruent(s1: Seq<StorageEntry>, s2: Seq<StorageEntry>)
    requires
        s1.len() == s2.len(),
        forall|j: int| 0 <= j < s1.len() ==> s1[j].key@ == s2[j].key@ && s1[j].value@
            == s2[j].value@,
    ensures
        storage_map(s1) == storage_map(s2),
    decreases s1.len(),
{
    if s1.len() > 0 {
        lemma_storage_map_congruent(s1.drop_first(), s2.drop_first());
        assert(storage_map(s1) =~= storage_map(s2));
    }
}

/// Index of the first entry with the given key.
fn find_storage_index(entries: &Vec<StorageEntry>, key: &Vec<u8>) -> (r: Option<usize>)
    ensures
        match r {
            Some(i) => i < entries@.len() && entries@[i as int].key@ == key@ && forall|j: int|
                0 <= j < i ==> entries@[j].key@ != key@,
            None => forall|j: int| 0 <= j < entries@.len() ==> entries@[j].key@ != key@,
        },
{
    let mut i: usize = 0;
    while i < entries.len()
        invariant
            i <= entries@.len(),
            forall|j: int| 0 <= j < i ==> entries@[j].key@ != key@,
        decreases entries@.len() - i,
    {
        if bytes_eq(&entries[i].key, key) {
            return Some(i);
        }
        i = i + 1;
    }
    None
}

/// The byte-string key/value store of one account.
pub struct AccountStorage {
    entries: Vec<StorageEntry>,
}

impl View for AccountStorage {
    type V = Map<Seq<u8>, Seq<u8>>;

    closed spec fn view(&self) -> Map<Seq<u8>, Seq<u8>> {
        storage_map(self.entries@)
    }
}

impl AccountStorage {
    /// Every key is stored at most once, as in the keyed map this store
    /// stands for.
    #[verifier::type_invariant]
    spec fn keys_distinct(self) -> bool {
        forall|j1: int, j2: int|
            0 <= j1 < j2 < self.entries@.len() ==> self.entries@[j1].key@ != self.entries@[j2].key@
    }

    /// An empty store.
    pub fn new_empty() -> (r: AccountStorage)
        ensures
            r@ == Map::<Seq<u8>, Seq<u8>>::empty(),
    {
        AccountStorage { entries: Vec::new() }
    }

    /// The value stored under a key, if any.
    pub fn get(&self, key: &Vec<u8>) -> (r: Option<&Vec<u8>>)
        ensures
            match r {
                Some(v) => self@.contains_key(key@) && self@[key@] == v@,
                None => !self@.contains_key(key@),
            },
    {
        match find_storage_index(&self.entries, key) {
            Some(i) => {
                proof {
                    lemma_storage_map_first_match(self.entries@, key@, i as int);
                }
                Some(&self.entries[i].value)
            },
            None => {
                proof {
                    lemma_storage_map_absent(self.entries@, key@);
                }
                None
            },
        }
    }

    /// Writes a value under a key, creating or overwriting it.
    pub fn set(&mut self, key: Vec<u8>, value: Vec<u8>)
        ensures
            final(self)@ == old(self)@.insert(key@, value@),
    {
        proof {
            use_type_invariant(&*self);
        }
        let ghost es0 = self.entries@;
        let mut entries: Vec<StorageEntry> = Vec::new();
        core::mem::swap(&mut entries, &mut self.entries);
        match find_storage_index(&entries, &key) {
            Some(i) => {
                proof {
                    lemma_storage_map_first_match(es0, key@, i as int);
                }
                let entry = StorageEntry { key, value };
                proof {
                    lemma_storage_map_update(es0, i as int, entry);
                }
                entries[i] = entry;
                proof {
                    assert(forall|j: int|
                        0 <= j < entries@.len() ==> entries@[j].key@ == es0[j].key@);
                }
            },
            None => {
                proof {
                    lemma_storage_map_absent(es0, key@);
                }
                let entry = StorageEntry { key, value };
                proof {
                    lemma_storage_map_push(es0, entry);
                }
                entries.push(entry);
            },
        }
        self.entries = entries;
    }

    /// The stored pairs, each key exactly once, for serialization.
    pub fn entries(&self) -> (r: &Vec<StorageEntry>)
        ensures
            storage_map(r@) == self@,
            forall|j1: int, j2: int| 0 <= j1 < j2 < r@.len() ==> r@[j1].key@ != r@[j2].key@,
    {
        proof {
            use_type_invariant(&*self);
        }
        &self.entries
    }
}

impl Clone for AccountStorage {
    /// A clone has the same view.
    fn clone(&self) -> (r: Self)
        ensures
            r@ == self@,
    {
        let mut entries: Vec<StorageEntry> = Vec::new();
        let mut i: usize = 0;
        while i < self.entries.len()
            invariant
                i <= self.entries@.len(),
                entries@.len() == i,
                forall|j: int| 0 <= j < i ==> entries@[j].key@ == self.entries@[j].key@
                    && entries@[j].value@ == self.entries@[j].value@,
            decreases self.entries@.len() - i,
        {
            entries.push(self.entries[i].clone());
            i = i + 1;
        }
        proof {
            use_type_invariant(&*self);
            lemma_storage_map_congruent(entries@, self.entries@);
        }
        AccountStorage { entries }
    }
}

/// View of one account record.
#[verifier::ext_equal]
pub ghost struct AccountV {
    pub address: Seq<u8>,
    pub nonce: u64,
    pub moax_balance: nat,
    pub storage: Map<Seq<u8>, Seq<u8>>,
    pub dct: Map<Seq<u8>, DctDataV>,
    pub username: Seq<u8>,
    pub contract_path: Option<Seq<u8>>,
    pub contract_owner: Option<Seq<u8>>,
}

/// One account record: created on first reference, never implicitly deleted.
pub struct AccountData {
    pub address: Address,
    pub nonce: u64,
    pub moax_balance: BigNat,
    pub storage: AccountStorage,
    pub dct: AccountDct,
    pub username: Vec<u8>,
    pub contract_path: Option<Vec<u8>>,
    pub contract_owner: Option<Address>,
}

impl View for AccountData {
    type V = AccountV;

    open spec fn view(&self) -> AccountV {
        AccountV {
            address: self.address@,
            nonce: self.nonce,
            moax_balance: self.moax_balance@,
            storage: self.storage@,
            dct: self.dct@,
            username: self.username@,
            contract_path: opt_bytes_view(self.contract_path),
            contract_owner: opt_address_view(self.contract_owner),
        }
    }
}

impl Clone for AccountData {
    /// A clone has the same address and view.
    fn clone(&self) -> (r: Self)
        ensures
            r@ == self@,
    {
        let r = AccountData {
            address: self.address.clone(),
            nonce: self.nonce,
            moax_balance: self.moax_balance.clone(),
            storage: self.storage.clone(),
            dct: self.dct.clone(),
            username: self.username.clone(),
            contract_path: match &self.contract_path {
                Some(p) => Some(p.clone()),
                None => None,
            },
            contract_owner: match &self.contract_owner {
                Some(a) => Some(a.clone()),
                None => None,
            },
        };
        proof {
            assert(r@ =~= self@);
        }
        r
    }
}

/// The account map of a sequence of records: address to account view, the
/// earliest record of an address taking precedence.
pub open spec fn account_map(s: Seq<AccountData>) -> Map<Seq<u8>, AccountV>
    decreases s.len(),
{
    if s.len() == 0 {
        Map::empty()
    } else {
        account_map(s.drop_first()).insert(s[0].address@, s[0]@)
    }
}

proof fn lemma_account_map_first_match(s: Seq<AccountData>, a: Seq<u8>, i: int)
    requires
        0 <= i < s.len(),
        s[i].address@ == a,
        forall|j: int| 0 <= j < i ==> s[j].address@ != a,
    ensures
        account_map(s).contains_key(a),
        account_map(s)[a] == s[i]@,
    decreases s.len(),
{
    if i == 0 {
    } else {
        lemma_account_map_first_match(s.drop_first(), a, i - 1);
    }
}

proof fn lemma_account_map_absent(s: Seq<AccountData>, a: Seq<u8>)
    requires
        forall|j: int| 0 <= j < s.len() ==> s[j].address@ != a,
    ensures
        !account_map(s).contains_key(a),
    decreases s.len(),
{
    if s.len() > 0 {
        lemma_account_map_absent(s.drop_first(), a);
    }
}

proof fn lemma_account_map_update(s: Seq<AccountData>, i: int, e: AccountData)
    requires
        0 <= i < s.len(),
        s[i].address@ == e.address@,
        forall|j: int| 0 <= j < i ==> s[j].address@ != e.address@,
    ensures
        account_map(s.update(i, e)) == account_map(s).insert(e.address@, e@),
    decreases s.len(),
{
    if i == 0 {
        assert(s.update(0, e).drop_first() =~= s.drop_first());
        assert(account_map(s.update(0, e)) =~= account_map(s).insert(e.address@, e@));
    } else {
        lemma_account_map_update(s.drop_first(), i - 1, e);
        assert(s.update(i, e).drop_first() =~= s.drop_first().update(i - 1, e));
        assert(account_map(s.update(i, e)) =~= account_map(s).insert(e.address@, e@));
    }
}

proof fn lemma_account_map_push(s: Seq<AccountData>, e: AccountData)
    requires
        forall|j: int| 0 <= j < s.len() ==> s[j].address@ != e.address@,
    ensures
        account_map(s.push(e)) == account_map(s).insert(e.address@, e@),
    decreases s.len(),
{
    if s.len() == 0 {
        reveal_with_fuel(account_map, 2);
        assert(s.push(e).drop_first() =~= Seq::<AccountData>::empty());
        assert(account_map(s.push(e)) =~= account_map(s).insert(e.address@, e@));
    } else {
        lemma_account_map_push(s.drop_first(), e);
        assert(s.push(e).drop_first() =~= s.drop_first().push(e));
        assert(account_map(s.push(e)) =~= account_map(s).insert(e.address@, e@));
    }
}

proof fn lemma_account_map_congruent(s1: Seq<AccountData>, s2: Seq<AccountData>)
    requires
        s1.len() == s2.len(),
        forall|j: int| 0 <= j < s1.len() ==> s1[j].address@ == s2[j].address@ && s1[j]@ == s2[j]@,
    ensures
        account_map(s1) == account_map(s2),
    decreases s1.len(),
{
    if s1.len() > 0 {
        lemma_account_map_congruent(s1.drop_first(), s2.drop_first());
        assert(account_map(s1) =~= account_map(s2));
    }
}

/// Index of the first record with the given address.
fn find_account_index(entries: &Vec<AccountData>, address: &Address) -> (r: Option<usize>)
    ensures
        match r {
            Some(i) => i < entries@.len() && entries@[i as int].address@ == address@ && forall|
                j: int,
            | 0 <= j < i ==> entries@[j].address@ != address@,
            None => forall|j: int| 0 <= j < entries@.len() ==> entries@[j].address@ != address@,
        },
{
    let mut i: usize = 0;
    while i < entries.len()
        invariant
            i <= entries@.len(),
            forall|j: int| 0 <= j < i ==> entries@[j].address@ != address@,
        decreases entries@.len() - i,
    {
        if entries[i].address.eq_address(address) {
            return Some(i);
        }
        i = i + 1;
    }
    None
}

/// The accounts of the world, or the private overlay of a transaction cache:
/// a map from address to account record.
pub struct AccountMap {
    entries: Vec<AccountData>,
}

impl View for AccountMap {
    type V = Map<Seq<u8>, AccountV>;

    closed spec fn view(&self) -> Map<Seq<u8>, AccountV> {
        account_map(self.entries@)
    }
}

impl AccountMap {
    /// Every address is stored at most once, as in the keyed map this store
    /// stands for.
    #[verifier::type_invariant]
    spec fn addresses_distinct(self) -> bool {
        forall|j1: int, j2: int|
            0 <= j1 < j2 < self.entries@.len() ==> self.entries@[j1].address@
                != self.entries@[j2].address@
    }

    /// A map with no accounts.
    pub fn new_empty() -> (r: AccountMap)
        ensures
            r@ == Map::<Seq<u8>, AccountV>::empty(),
    {
        AccountMap { entries: Vec::new() }
    }

    /// The record of an address, if the account exists.
    pub fn get(&self, address: &Address) -> (r: Option<&AccountData>)
        ensures
            match r {
                Some(acc) => self@.contains_key(address@) && self@[address@] == acc@
                    && acc.address@ == address@,
                None => !self@.contains_key(address@),
            },
    {
        match find_account_index(&self.entries, address) {
            Some(i) => {
                proof {
                    lemma_account_map_first_match(self.entries@, address@, i as int);
                }
                Some(&self.entries[i])
            },
            None => {
                proof {
                    lemma_account_map_absent(self.entries@, address@);
                }
                None
            },
        }
    }

    /// Whether an account exists for the address.
    pub fn contains(&self, address: &Address) -> (r: bool)
        ensures
            r == self@.contains_key(address@),
    {
        match self.get(address) {
            Some(_) => true,
            None => false,
        }
    }

    /// Inserts or replaces the record stored under its own address.
    pub fn upsert(&mut self, account: AccountData)
        ensures
            final(self)@ == old(self)@.insert(account.address@, account@),
    {
        proof {
            use_type_invariant(&*self);
        }
        let ghost es0 = self.entries@;
        let mut entries: Vec<AccountData> = Vec::new();
        core::mem::swap(&mut entries, &mut self.entries);
        match find_account_index(&entries, &account.address) {
            Some(i) => {
                proof {
                    lemma_account_map_first_match(es0, account.address@, i as int);
                    lemma_account_map_update(es0, i as int, account);
                }
                entries[i] = account;
                proof {
                    assert(forall|j: int|
                        0 <= j < entries@.len() ==> entries@[j].address@ == es0[j].address@);
                }
            },
            None => {
                proof {
                    lemma_account_map_absent(es0, account.address@);
                    lemma_account_map_push(es0, account);
                }
                entries.push(account);
            },
        }
        self.entries = entries;
    }

    /// The stored records, each address exactly once, for serialization and
    /// folding.
    pub fn entries(&self) -> (r: &Vec<AccountData>)
        ensures
            account_map(r@) == self@,
            forall|j1: int, j2: int| 0 <= j1 < j2 < r@.len() ==> r@[j1].address@ != r@[j2].address@,
    {
        proof {
            use_type_invariant(&*self);
        }
        &self.entries
    }
}

impl Clone for AccountMap {
    /// A clone has the same view.
    fn clone(&self) -> (r: Self)
        ensures
            r@ == self@,
    {
        let mut entries: Vec<AccountData> = Vec::new();
        let mut i: usize = 0;
        while i < self.entries.len()
            invariant
                i <= self.entries@.len(),
                entries@.len() == i,
                forall|j: int| 0 <= j < i ==> entries@[j].address@ == self.entries@[j].address@
                    && entries@[j]@ == self.entries@[j]@,
            decreases self.entries@.len() - i,
        {
            entries.push(self.entries[i].clone());
            i = i + 1;
        }
        proof {
            use_type_invariant(&*self);
            lemma_account_map_congruent(entries@, self.entries@);
        }
        AccountMap { entries }
    }
}

/// View of the metadata of one block.
#[verifier::ext_equal]
pub ghost struct BlockInfoV {
    pub block_timestamp: u64,
    pub block_nonce: u64,
    pub block_round: u64,
    pub block_epoch: u64,
    pub block_random_seed: Seq<u8>,
}

/// Metadata of one block.
pub struct BlockInfo {
    pub block_timestamp: u64,
    pub block_nonce: u64,
    pub block_round: u64,
    pub block_epoch: u64,
    pub block_random_seed: Vec<u8>,
}

impl View for BlockInfo {
    type V = BlockInfoV;

    open spec fn view(&self) -> BlockInfoV {
        BlockInfoV {
            block_timestamp: self.block_timestamp,
            block_nonce: self.block_nonce,
            block_round: self.block_round,
            block_epoch: self.block_epoch,
            block_random_seed: self.block_random_seed@,
        }
    }
}

impl BlockInfo {
    /// Block metadata with every field zero.
    pub fn new() -> (r: BlockInfo)
        ensures
            r@.block_timestamp == 0,
            r@.block_nonce == 0,
            r@.block_round == 0,
            r@.block_epoch == 0,
            r@.block_random_seed.len() == 0,
    {
        BlockInfo {
            block_timestamp: 0,
            block_nonce: 0,
            block_round: 0,
            block_epoch: 0,
            block_random_seed: Vec::new(),
        }
    }
}

impl Clone for BlockInfo {
    /// A clone has the same view.
    fn clone(&self) -> (r: Self)
        ensures
            r@ == self@,
    {
        let r = BlockInfo {
            block_timestamp: self.block_timestamp,
            block_nonce: self.block_nonce,
            block_round: self.block_round,
            block_epoch: self.block_epoch,
            block_random_seed: self.block_random_seed.clone(),
        };
        proof {
            assert(r@ =~= self@);
        }
        r
    }
}

/// View of the whole world state.
#[verifier::ext_equal]
pub ghost struct WorldV {
    pub accounts: Map<Seq<u8>, AccountV>,
    pub current_block: BlockInfoV,
    pub previous_block: BlockInfoV,
}

/// The world state: every account, and the current and previous block
/// metadata.
pub struct BlockchainMock {
    pub accounts: AccountMap,
    pub current_block_info: BlockInfo,
    pub previous_block_info: BlockInfo,
}

impl View for BlockchainMock {
    type V = WorldV;

    open spec fn view(&self) -> WorldV {
        WorldV {
            accounts: self.accounts@,
            current_block: self.current_block_info@,
            previous_block: self.previous_block_info@,
        }
    }
}

/// Native-coin balance of an address in a world: defined only where the
/// account exists.
pub open spec fn world_moax_balance(w: WorldV, a: Seq<u8>) -> nat {
    w.accounts[a].moax_balance
}

/// Token balance of (address, identifier, nonce) in a world: zero where the
/// token or the nonce is absent.
pub open spec fn world_token_balance(w: WorldV, a: Seq<u8>, id: Seq<u8>, nonce: u64) -> nat {
    if w.accounts.contains_key(a) {
        token_balance_of(w.accounts[a].dct, id, nonce)
    } else {
        0
    }
}

impl BlockchainMock {
    /// A world with no accounts and zeroed block metadata.
    pub fn new() -> (r: BlockchainMock)
        ensures
            r@.accounts == Map::<Seq<u8>, AccountV>::empty(),
            r@.current_block.block_timestamp == 0,
            r@.previous_block.block_timestamp == 0,
    {
        BlockchainMock {
            accounts: AccountMap::new_empty(),
            current_block_info: BlockInfo::new(),
            previous_block_info: BlockInfo::new(),
        }
    }

    /// Inserts or replaces an account record under its address.
    pub fn add_account(&mut self, account: AccountData)
        ensures
            final(self)@ == (WorldV {
                accounts: old(self)@.accounts.insert(account.address@, account@),
                ..old(self)@
            }),
    {
        self.accounts.upsert(account);
        proof {
            assert(final(self)@ =~= (WorldV {
                accounts: old(self)@.accounts.insert(account.address@, account@),
                ..old(self)@
            }));
        }
    }

    /// Whether an account exists for the address.
    pub fn contains_account(&self, address: &Address) -> (r: bool)
        ensures
            r == self@.accounts.contains_key(address@),
    {
        self.accounts.contains(address)
    }
}

impl Clone for BlockchainMock {
    /// A clone has the same view.
    fn clone(&self) -> (r: Self)
        ensures
            r@ == self@,
    {
        let r = BlockchainMock {
            accounts: self.accounts.clone(),
            current_block_info: self.current_block_info.clone(),
            previous_block_info: self.previous_block_info.clone(),
        };
        proof {
            assert(r@ =~= self@);
        }
        r
    }
}

} // verus!
