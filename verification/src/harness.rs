//! The execution harness: a wrapper owning the world state, an address
//! factory and a scenario generator, with the state-management surface test
//! drivers use between calls.

use vstd::prelude::*;
use vstd::pervasive::unreached;

use crate::address::Address;
use crate::address::AddressFactory;
use crate::address::bytes_eq;
use crate::address::ADDRESS_LEN;
use crate::address::sc_address_bytes;
use crate::address::user_address_bytes;
use crate::bignat::BigNat;
use crate::denali::DenaliGenerator;
use crate::denali::ScCallDenali;
use crate::denali::ScQueryDenali;
use crate::denali::StepV;
use crate::denali::TxExpectDenali;
use crate::denali::opt_expect_view;
use crate::tokens::DctDataV;
use crate::tokens::DctInstanceMetadata;
use crate::tokens::MetaV;
use crate::tokens::dct_data_fresh;
use crate::tokens::dct_data_with_set;
use crate::tokens::meta_default;
use crate::tokens::opt_bytes_view;
use crate::tokens::token_balance_of;
use crate::tx::PaymentV;
use crate::tx::TxInput;
use crate::tx::TxInputV;
use crate::tx::TxInputDCT;
use crate::tx::TxPanic;
use crate::tx::TxPanicV;
use crate::tx::TxResult;
use crate::tx::TxResultV;
use crate::tx::native_insufficient_panic;
use crate::tx::payments_view;
use crate::tx::token_insufficient_panic;
use crate::tx::tx_result_of_panic;
use crate::tx::tx_result_success;
use crate::txcache::CacheV;
use crate::txcache::TxCache;
use crate::txcache::cache_add_native;
use crate::txcache::cache_add_token;
use crate::txcache::cache_can_sub_token;
use crate::txcache::cache_has_account;
use crate::txcache::cache_moax_balance;
use crate::txcache::cache_sub_native;
use crate::txcache::cache_sub_token;
use crate::txcache::cache_token_meta;
use crate::world::AccountMap;
use crate::world::account_map;
use crate::world::AccountData;
use crate::world::AccountStorage;
use crate::world::AccountV;
use crate::world::BlockchainMock;
use crate::world::BlockInfoV;
use crate::world::WorldV;
use crate::world::world_token_balance;
use crate::tokens::AccountDct;

verus! {

/// The directive a dispatched call ends with: fold the accumulated effects
/// into the world, or discard them.
pub enum StateChange {
    Commit,
    Revert,
}

/// A handle to a deployed contract account: test drivers address calls
/// through it. The behaviour of the contract itself is supplied per call by
/// the test driver.
pub struct ContractObjWrapper {
    address: Address,
}

impl View for ContractObjWrapper {
    type V = Seq<u8>;

    closed spec fn view(&self) -> Seq<u8> {
        self.address@
    }
}

impl ContractObjWrapper {
    /// A handle to the contract account at the given address.
    pub fn new(address: Address) -> (r: ContractObjWrapper)
        ensures
            r@ == address@,
    {
        ContractObjWrapper { address }
    }

    /// The address of the contract account.
    pub fn address_ref(&self) -> (r: &Address)
        ensures
            r@ == self@,
    {
        &self.address
    }
}

/// View of an optional address reference.
pub open spec fn opt_addr_ref_view(o: Option<&Address>) -> Option<Seq<u8>> {
    match o {
        Some(a) => Some(a@),
        None => None,
    }
}

/// The account record [`BlockchainStateWrapper::create_account_raw`] creates.
pub open spec fn fresh_account(
    addr: Seq<u8>,
    balance: nat,
    owner: Option<Seq<u8>>,
    path: Option<Seq<u8>>,
) -> AccountV {
    AccountV {
        address: addr,
        nonce: 0,
        moax_balance: balance,
        storage: Map::empty(),
        dct: Map::empty(),
        username: Seq::empty(),
        contract_path: path,
        contract_owner: owner,
    }
}

/// The harness around one world state: it owns the world, allocates
/// addresses, and records scenario steps as the state changes.
pub struct BlockchainStateWrapper {
    world: BlockchainMock,
    address_factory: AddressFactory,
    address_to_code_path: AccountStorage,
    denali_generator: DenaliGenerator,
}

impl BlockchainStateWrapper {
    /// The owned world state.
    pub closed spec fn spec_world(&self) -> BlockchainMock {
        self.world
    }

    /// The scenario generator.
    pub closed spec fn spec_gen(&self) -> DenaliGenerator {
        self.denali_generator
    }

    /// The address factory.
    pub closed spec fn spec_factory(&self) -> AddressFactory {
        self.address_factory
    }

    /// The recorded code path of each contract address.
    pub closed spec fn spec_code_paths(&self) -> Map<Seq<u8>, Seq<u8>> {
        self.address_to_code_path@
    }

    /// The code path recorded for an address, if any.
    pub open spec fn spec_code_path_of(&self, a: Seq<u8>) -> Option<Seq<u8>> {
        if self.spec_code_paths().contains_key(a) {
            Some(self.spec_code_paths()[a])
        } else {
            None
        }
    }

    /// A harness over an empty world, with nothing allocated and nothing
    /// recorded.
    pub fn new() -> (r: BlockchainStateWrapper)
        ensures
            r.spec_world()@.accounts == Map::<Seq<u8>, AccountV>::empty(),
            r.spec_gen()@ == Seq::<StepV>::empty(),
            r.spec_factory().spec_count() == 0,
            r.spec_code_paths() == Map::<Seq<u8>, Seq<u8>>::empty(),
    {
        BlockchainStateWrapper {
            world: BlockchainMock::new(),
            address_factory: AddressFactory::new(),
            address_to_code_path: AccountStorage::new_empty(),
            denali_generator: DenaliGenerator::new(),
        }
    }

    /// Direct mutable access to the world state.
    pub fn get_mut_state(&mut self) -> (r: &mut BlockchainMock)
        ensures
            *r == old(self).spec_world(),
            final(self).spec_world() == *final(r),
            final(self).spec_gen() == old(self).spec_gen(),
            final(self).spec_factory() == old(self).spec_factory(),
            final(self).spec_code_paths() == old(self).spec_code_paths(),
    {
        &mut self.world
    }

    /// The recorded scenario, for rendering in the external format.
    pub fn denali_steps(&self) -> (r: &DenaliGenerator)
        ensures
            r@ == self.spec_gen()@,
    {
        &self.denali_generator
    }

    /// Whether the native balance of an address equals the expected value;
    /// a missing account counts as balance zero.
    pub fn check_moax_balance(&self, address: &Address, expected_balance: &BigNat) -> (r: bool)
        ensures
            r == (expected_balance@ == (if self.spec_world()@.accounts.contains_key(address@) {
                self.spec_world()@.accounts[address@].moax_balance
            } else {
                0nat
            })),
    {
        match self.world.accounts.get(address) {
            Some(acc) => acc.moax_balance.eq_value(expected_balance),
            None => expected_balance.is_zero(),
        }
    }

    /// Whether the fungible (nonce 0) balance of a token equals the expected
    /// value; a missing account counts as balance zero.
    pub fn check_dct_balance(
        &self,
        address: &Address,
        token_id: &Vec<u8>,
        expected_balance: &BigNat,
    ) -> (r: bool)
        ensures
            r == (expected_balance@ == (if self.spec_world()@.accounts.contains_key(address@) {
                token_balance_of(self.spec_world()@.accounts[address@].dct, token_id@, 0)
            } else {
                0nat
            })),
    {
        match self.world.accounts.get(address) {
            Some(acc) => {
                let actual = acc.dct.get_dct_balance(token_id, 0);
                actual.eq_value(expected_balance)
            },
            None => expected_balance.is_zero(),
        }
    }

    /// The attribute bytes stored for (address, identifier, nonce), or empty
    /// where the account, the identifier or the instance is absent.
    pub open spec fn spec_nft_attributes(&self, a: Seq<u8>, id: Seq<u8>, nonce: u64) -> Seq<u8> {
        let w = self.spec_world()@;
        if w.accounts.contains_key(a) && w.accounts[a].dct.contains_key(id)
            && w.accounts[a].dct[id].instances.contains_key(nonce) {
            w.accounts[a].dct[id].instances[nonce].metadata.attributes
        } else {
            Seq::empty()
        }
    }

    /// Whether the instance under (identifier, nonce) matches the expected
    /// balance and attribute bytes: the balance is compared only where the
    /// instance exists, and a missing instance counts as empty attributes.
    pub fn check_nft_balance(
        &self,
        address: &Address,
        token_id: &Vec<u8>,
        nonce: u64,
        expected_balance: &BigNat,
        expected_attributes: &Vec<u8>,
    ) -> (r: bool)
        ensures
            r == ({
                let w = self.spec_world()@;
                let instance_known = w.accounts.contains_key(address@)
                    && w.accounts[address@].dct.contains_key(token_id@)
                    && w.accounts[address@].dct[token_id@].instances.contains_key(nonce);
                (instance_known ==> expected_balance@ == world_token_balance(
                    w,
                    address@,
                    token_id@,
                    nonce,
                )) && expected_attributes@ == self.spec_nft_attributes(address@, token_id@, nonce)
            }),
    {
        let mut balance_ok = true;
        let mut actual_attributes: Vec<u8> = Vec::new();
        match self.world.accounts.get(address) {
            Some(acc) => match acc.dct.get_by_identifier(token_id) {
                Some(d) => match d.instances.get_by_nonce(nonce) {
                    Some(inst) => {
                        balance_ok = inst.balance.eq_value(expected_balance);
                        actual_attributes = inst.metadata.attributes.clone();
                    },
                    None => {},
                },
                None => {},
            },
            None => {},
        }
        balance_ok && bytes_eq(&actual_attributes, expected_attributes)
    }

    /// Creates a fresh user account with the given native balance and
    /// records it. The address is the one the factory's next counter value
    /// determines, so it is distinct from every previously allocated address
    /// (see [`crate::address::lemma_allocated_addresses_distinct`]).
    pub fn create_user_account(&mut self, moax_balance: &BigNat) -> (r: Address)
        requires
            old(self).spec_factory().spec_count() < u64::MAX,
        ensures
            r@ == user_address_bytes(final(self).spec_factory().spec_count()),
            r@.len() == ADDRESS_LEN,
            final(self).spec_world()@ == (WorldV {
                accounts: old(self).spec_world()@.accounts.insert(
                    r@,
                    fresh_account(r@, moax_balance@, None, None),
                ),
                ..old(self).spec_world()@
            }),
            final(self).spec_gen()@ == old(self).spec_gen()@.push(
                StepV::SetAccount {
                    account: fresh_account(r@, moax_balance@, None, None),
                    sc_path: None,
                },
            ),
            final(self).spec_factory().spec_count() == old(self).spec_factory().spec_count() + 1,
            final(self).spec_code_paths() == old(self).spec_code_paths(),
    {
        let address = self.address_factory.new_address();
        self.create_account_raw(&address, moax_balance, None, None, None);
        address
    }

    /// Creates or replaces an account record with the given balance, owner
    /// and code identifier, and records it.
    pub fn create_account_raw(
        &mut self,
        address: &Address,
        moax_balance: &BigNat,
        owner: Option<&Address>,
        sc_identifier: Option<Vec<u8>>,
        sc_denali_path_expr: Option<Vec<u8>>,
    )
        ensures
            final(self).spec_world()@ == (WorldV {
                accounts: old(self).spec_world()@.accounts.insert(
                    address@,
                    fresh_account(
                        address@,
                        moax_balance@,
                        opt_addr_ref_view(owner),
                        opt_bytes_view(sc_identifier),
                    ),
                ),
                ..old(self).spec_world()@
            }),
            final(self).spec_gen()@ == old(self).spec_gen()@.push(
                StepV::SetAccount {
                    account: fresh_account(
                        address@,
                        moax_balance@,
                        opt_addr_ref_view(owner),
                        opt_bytes_view(sc_identifier),
                    ),
                    sc_path: opt_bytes_view(sc_denali_path_expr),
                },
            ),
            final(self).spec_factory() == old(self).spec_factory(),
            final(self).spec_code_paths() == old(self).spec_code_paths(),
    {
        let acc_data = AccountData {
            address: address.clone(),
            nonce: 0,
            moax_balance: moax_balance.clone(),
            storage: AccountStorage::new_empty(),
            dct: AccountDct::new_empty(),
            username: Vec::new(),
            contract_path: sc_identifier,
            contract_owner: match owner {
                Some(a) => Some(a.clone()),
                None => None,
            },
        };
        proof {
            assert(acc_data@ =~= fresh_account(
                address@,
                moax_balance@,
                opt_addr_ref_view(owner),
                opt_bytes_view(acc_data.contract_path),
            ));
        }
        self.denali_generator.set_account(&acc_data, sc_denali_path_expr);
        self.world.add_account(acc_data);
    }

    /// View of an optional byte-vector reference.
    pub open spec fn opt_bytes_ref_view(o: Option<&Vec<u8>>) -> Option<Seq<u8>> {
        match o {
            Some(b) => Some(b@),
            None => None,
        }
    }

    /// Creates a fresh contract account with the given balance, owner, code
    /// identifier and code path, records the path under the new address, and
    /// hands back the handle calls are addressed through. The address is the
    /// one the factory's next counter value determines, so it is distinct
    /// from every previously allocated address (see
    /// [`crate::address::lemma_allocated_addresses_distinct`]).
    pub fn create_sc_account(
        &mut self,
        moax_balance: &BigNat,
        owner: Option<&Address>,
        sc_identifier: Vec<u8>,
        sc_denali_path_expr: Vec<u8>,
    ) -> (r: ContractObjWrapper)
        requires
            old(self).spec_factory().spec_count() < u64::MAX,
        ensures
            r@ == sc_address_bytes(final(self).spec_factory().spec_count()),
            r@.len() == ADDRESS_LEN,
            final(self).spec_world()@ == (WorldV {
                accounts: old(self).spec_world()@.accounts.insert(
                    r@,
                    fresh_account(
                        r@,
                        moax_balance@,
                        opt_addr_ref_view(owner),
                        Some(sc_identifier@),
                    ),
                ),
                ..old(self).spec_world()@
            }),
            final(self).spec_gen()@ == old(self).spec_gen()@.push(
                StepV::SetAccount {
                    account: fresh_account(
                        r@,
                        moax_balance@,
                        opt_addr_ref_view(owner),
                        Some(sc_identifier@),
                    ),
                    sc_path: Some(sc_denali_path_expr@),
                },
            ),
            final(self).spec_code_paths() == old(self).spec_code_paths().insert(
                r@,
                sc_denali_path_expr@,
            ),
            final(self).spec_factory().spec_count() == old(self).spec_factory().spec_count() + 1,
    {
        let address = self.address_factory.new_sc_address();
        let path_for_map = sc_denali_path_expr.clone();
        self.address_to_code_path.set(address.as_bytes().clone(), path_for_map);
        self.create_account_raw(
            &address,
            moax_balance,
            owner,
            Some(sc_identifier),
            Some(sc_denali_path_expr),
        );
        ContractObjWrapper::new(address)
    }

    /// Overwrites the native balance of an existing account and records the
    /// account.
    pub fn set_moax_balance(&mut self, address: &Address, balance: &BigNat)
        requires
            old(self).spec_world()@.accounts.contains_key(address@),
        ensures
            final(self).spec_world()@ == (WorldV {
                accounts: old(self).spec_world()@.accounts.insert(
                    address@,
                    (AccountV {
                        moax_balance: balance@,
                        ..old(self).spec_world()@.accounts[address@]
                    }),
                ),
                ..old(self).spec_world()@
            }),
            final(self).spec_gen()@ == old(self).spec_gen()@.push(
                StepV::SetAccount {
                    account: (AccountV {
                        moax_balance: balance@,
                        ..old(self).spec_world()@.accounts[address@]
                    }),
                    sc_path: old(self).spec_code_path_of(address@),
                },
            ),
            final(self).spec_factory() == old(self).spec_factory(),
            final(self).spec_code_paths() == old(self).spec_code_paths(),
    {
        match self.world.accounts.get(address) {
            Some(acc) => {
                let mut acc = acc.clone();
                acc.moax_balance = balance.clone();
                proof {
                    assert(acc@ =~= (AccountV {
                        moax_balance: balance@,
                        ..old(self).spec_world()@.accounts[address@]
                    }));
                }
                self.world.add_account(acc);
            },
            None => unreached(),
        }
        self.add_denali_set_account(address);
    }

    /// Overwrites the fungible (nonce 0) balance of a token of an existing
    /// account and records the account.
    pub fn set_dct_balance(&mut self, address: &Address, token_id: &Vec<u8>, balance: &BigNat)
        requires
            old(self).spec_world()@.accounts.contains_key(address@),
        ensures
            final(self).spec_world()@ == (WorldV {
                accounts: old(self).spec_world()@.accounts.insert(
                    address@,
                    set_dct_account(old(self).spec_world()@.accounts[address@], token_id@, 0, balance@, meta_default()),
                ),
                ..old(self).spec_world()@
            }),
            final(self).spec_gen()@ == old(self).spec_gen()@.push(
                StepV::SetAccount {
                    account: set_dct_account(old(self).spec_world()@.accounts[address@], token_id@, 0, balance@, meta_default()),
                    sc_path: old(self).spec_code_path_of(address@),
                },
            ),
            final(self).spec_factory() == old(self).spec_factory(),
            final(self).spec_code_paths() == old(self).spec_code_paths(),
    {
        match self.world.accounts.get(address) {
            Some(acc) => {
                let mut acc = acc.clone();
                acc.dct.set_dct_balance(token_id.clone(), 0, balance, DctInstanceMetadata::default());
                proof {
                    assert(acc@ =~= set_dct_account(
                        old(self).spec_world()@.accounts[address@],
                        token_id@,
                        0,
                        balance@,
                        meta_default(),
                    ));
                }
                self.world.add_account(acc);
            },
            None => unreached(),
        }
        self.add_denali_set_account(address);
    }

    /// Overwrites the balance of (identifier, nonce) with attribute bytes
    /// alone; every other metadata field is left empty.
    pub fn set_nft_balance(
        &mut self,
        address: &Address,
        token_id: &Vec<u8>,
        nonce: u64,
        balance: &BigNat,
        attributes: &Vec<u8>,
    )
        requires
            old(self).spec_world()@.accounts.contains_key(address@),
        ensures
            final(self).spec_world()@ == (WorldV {
                accounts: old(self).spec_world()@.accounts.insert(
                    address@,
                    set_dct_account(
                        old(self).spec_world()@.accounts[address@],
                        token_id@,
                        nonce,
                        balance@,
                        (MetaV { attributes: attributes@, ..meta_default() }),
                    ),
                ),
                ..old(self).spec_world()@
            }),
            final(self).spec_gen()@ == old(self).spec_gen()@.push(
                StepV::SetAccount {
                    account: set_dct_account(
                        old(self).spec_world()@.accounts[address@],
                        token_id@,
                        nonce,
                        balance@,
                        (MetaV { attributes: attributes@, ..meta_default() }),
                    ),
                    sc_path: old(self).spec_code_path_of(address@),
                },
            ),
            final(self).spec_factory() == old(self).spec_factory(),
            final(self).spec_code_paths() == old(self).spec_code_paths(),
    {
        self.set_nft_balance_all_properties(
            address,
            token_id,
            nonce,
            balance,
            attributes,
            0,
            None,
            None,
            None,
            None,
        );
        proof {
            assert((MetaV {
                creator: opt_addr_ref_view(None),
                royalties: 0,
                attributes: attributes@,
                name: match None::<&Vec<u8>> { Some(n) => n@, None => Seq::empty() },
                hash: Self::opt_bytes_ref_view(None),
                uri: Self::opt_bytes_ref_view(None),
            }) =~= (MetaV { attributes: attributes@, ..meta_default() }));
        }
    }

    /// Overwrites the balance of (identifier, nonce) with the full set of
    /// metadata fields and records the account. Metadata takes effect only
    /// where the instance did not previously exist.
    pub fn set_nft_balance_all_properties(
        &mut self,
        address: &Address,
        token_id: &Vec<u8>,
        nonce: u64,
        balance: &BigNat,
        attributes: &Vec<u8>,
        royalties: u64,
        creator: Option<&Address>,
        name: Option<&Vec<u8>>,
        hash: Option<&Vec<u8>>,
        uri: Option<&Vec<u8>>,
    )
        requires
            old(self).spec_world()@.accounts.contains_key(address@),
        ensures
            final(self).spec_world()@ == (WorldV {
                accounts: old(self).spec_world()@.accounts.insert(
                    address@,
                    set_dct_account(
                        old(self).spec_world()@.accounts[address@],
                        token_id@,
                        nonce,
                        balance@,
                        (MetaV {
                            creator: opt_addr_ref_view(creator),
                            royalties,
                            attributes: attributes@,
                            name: match name { Some(n) => n@, None => Seq::empty() },
                            hash: Self::opt_bytes_ref_view(hash),
                            uri: Self::opt_bytes_ref_view(uri),
                        }),
                    ),
                ),
                ..old(self).spec_world()@
            }),
            final(self).spec_gen()@ == old(self).spec_gen()@.push(
                StepV::SetAccount {
                    account: set_dct_account(
                        old(self).spec_world()@.accounts[address@],
                        token_id@,
                        nonce,
                        balance@,
                        (MetaV {
                            creator: opt_addr_ref_view(creator),
                            royalties,
                            attributes: attributes@,
                            name: match name { Some(n) => n@, None => Seq::empty() },
                            hash: Self::opt_bytes_ref_view(hash),
                            uri: Self::opt_bytes_ref_view(uri),
                        }),
                    ),
                    sc_path: old(self).spec_code_path_of(address@),
                },
            ),
            final(self).spec_factory() == old(self).spec_factory(),
            final(self).spec_code_paths() == old(self).spec_code_paths(),
    {
        let metadata = DctInstanceMetadata {
            creator: match creator {
                Some(a) => Some(a.clone()),
                None => None,
            },
            royalties,
            attributes: attributes.clone(),
            name: match name {
                Some(n) => n.clone(),
                None => Vec::new(),
            },
            hash: match hash {
                Some(h) => Some(h.clone()),
                None => None,
            },
            uri: match uri {
                Some(u) => Some(u.clone()),
                None => None,
            },
        };
        match self.world.accounts.get(address) {
            Some(acc) => {
                let mut acc = acc.clone();
                let ghost meta_v = metadata@;
                acc.dct.set_dct_balance(token_id.clone(), nonce, balance, metadata);
                proof {
                    assert(acc@ =~= set_dct_account(
                        old(self).spec_world()@.accounts[address@],
                        token_id@,
                        nonce,
                        balance@,
                        meta_v,
                    ));
                }
                self.world.add_account(acc);
            },
            None => unreached(),
        }
        self.add_denali_set_account(address);
    }

    /// Replaces the full role-name set of a token for an existing account
    /// and records the account.
    pub fn set_dct_local_roles(&mut self, address: &Address, token_id: &Vec<u8>, roles: &Vec<Vec<u8>>)
        requires
            old(self).spec_world()@.accounts.contains_key(address@),
        ensures
            final(self).spec_world()@ == (WorldV {
                accounts: old(self).spec_world()@.accounts.insert(
                    address@,
                    set_roles_account(
                        old(self).spec_world()@.accounts[address@],
                        token_id@,
                        roles@.map_values(|r: Vec<u8>| r@),
                    ),
                ),
                ..old(self).spec_world()@
            }),
            final(self).spec_gen()@ == old(self).spec_gen()@.push(
                StepV::SetAccount {
                    account: set_roles_account(
                        old(self).spec_world()@.accounts[address@],
                        token_id@,
                        roles@.map_values(|r: Vec<u8>| r@),
                    ),
                    sc_path: old(self).spec_code_path_of(address@),
                },
            ),
            final(self).spec_factory() == old(self).spec_factory(),
            final(self).spec_code_paths() == old(self).spec_code_paths(),
    {
        let mut roles_raw: Vec<Vec<u8>> = Vec::new();
        let mut i: usize = 0;
        while i < roles.len()
            invariant
                i <= roles@.len(),
                roles_raw@.len() == i,
                forall|j: int| 0 <= j < i ==> roles_raw@[j]@ == roles@[j]@,
            decreases roles@.len() - i,
        {
            roles_raw.push(roles[i].clone());
            i = i + 1;
        }
        proof {
            assert(roles_raw@.map_values(|r: Vec<u8>| r@) =~= roles@.map_values(|r: Vec<u8>| r@));
        }
        match self.world.accounts.get(address) {
            Some(acc) => {
                let mut acc = acc.clone();
                acc.dct.set_roles(token_id.clone(), roles_raw);
                proof {
                    assert(acc@ =~= set_roles_account(
                        old(self).spec_world()@.accounts[address@],
                        token_id@,
                        roles@.map_values(|r: Vec<u8>| r@),
                    ));
                }
                self.world.add_account(acc);
            },
            None => unreached(),
        }
        self.add_denali_set_account(address);
    }

    /// Records the current full state of an account, with its recorded code
    /// path, if the account exists; otherwise records nothing.
    pub fn add_denali_set_account(&mut self, address: &Address)
        ensures
            final(self).spec_world() == old(self).spec_world(),
            final(self).spec_gen()@ == if old(self).spec_world()@.accounts.contains_key(address@) {
                old(self).spec_gen()@.push(
                    StepV::SetAccount {
                        account: old(self).spec_world()@.accounts[address@],
                        sc_path: old(self).spec_code_path_of(address@),
                    },
                )
            } else {
                old(self).spec_gen()@
            },
            final(self).spec_factory() == old(self).spec_factory(),
            final(self).spec_code_paths() == old(self).spec_code_paths(),
    {
        match self.world.accounts.get(address) {
            Some(acc) => {
                let opt_contract_path = match self.address_to_code_path.get(address.as_bytes()) {
                    Some(p) => Some(p.clone()),
                    None => None,
                };
                self.denali_generator.set_account(acc, opt_contract_path);
            },
            None => {},
        }
    }

    /// Records a check of the current full state of an account, if the
    /// account exists; otherwise records nothing.
    pub fn add_denali_check_account(&mut self, address: &Address)
        ensures
            final(self).spec_world() == old(self).spec_world(),
            final(self).spec_gen()@ == if old(self).spec_world()@.accounts.contains_key(address@) {
                old(self).spec_gen()@.push(
                    StepV::CheckAccount { account: old(self).spec_world()@.accounts[address@] },
                )
            } else {
                old(self).spec_gen()@
            },
            final(self).spec_factory() == old(self).spec_factory(),
            final(self).spec_code_paths() == old(self).spec_code_paths(),
    {
        match self.world.accounts.get(address) {
            Some(acc) => {
                self.denali_generator.check_account(acc);
            },
            None => {},
        }
    }

    /// Records a contract call and its expectation.
    pub fn add_denali_sc_call(&mut self, sc_call: ScCallDenali, opt_expect: Option<TxExpectDenali>)
        ensures
            final(self).spec_world() == old(self).spec_world(),
            final(self).spec_gen()@ == old(self).spec_gen()@.push(
                StepV::ScCall { call: sc_call@, expect: opt_expect_view(opt_expect) },
            ),
            final(self).spec_factory() == old(self).spec_factory(),
            final(self).spec_code_paths() == old(self).spec_code_paths(),
    {
        self.denali_generator.create_tx(sc_call, opt_expect);
    }

    /// Records a read-only query and its expectation.
    pub fn add_denali_sc_query(&mut self, sc_query: ScQueryDenali, opt_expect: Option<TxExpectDenali>)
        ensures
            final(self).spec_world() == old(self).spec_world(),
            final(self).spec_gen()@ == old(self).spec_gen()@.push(
                StepV::ScQuery { query: sc_query@, expect: opt_expect_view(opt_expect) },
            ),
            final(self).spec_factory() == old(self).spec_factory(),
            final(self).spec_code_paths() == old(self).spec_code_paths(),
    {
        self.denali_generator.create_query(sc_query, opt_expect);
    }

    /// Native-coin balance of an existing account.
    pub fn get_moax_balance(&self, address: &Address) -> (r: BigNat)
        requires
            self.spec_world()@.accounts.contains_key(address@),
        ensures
            r@ == self.spec_world()@.accounts[address@].moax_balance,
    {
        match self.world.accounts.get(address) {
            Some(acc) => acc.moax_balance.clone(),
            None => unreached(),
        }
    }

    /// Token balance of (identifier, nonce) of an existing account: zero if
    /// the identifier or the nonce is absent.
    pub fn get_dct_balance(&self, address: &Address, token_id: &Vec<u8>, token_nonce: u64) -> (r:
        BigNat)
        requires
            self.spec_world()@.accounts.contains_key(address@),
        ensures
            r@ == token_balance_of(
                self.spec_world()@.accounts[address@].dct,
                token_id@,
                token_nonce,
            ),
    {
        match self.world.accounts.get(address) {
            Some(acc) => acc.dct.get_dct_balance(token_id, token_nonce),
            None => unreached(),
        }
    }

    /// The attribute payload of an instance of an existing account: absent
    /// where the identifier or the nonce is unknown.
    pub fn get_nft_attributes(&self, address: &Address, token_id: &Vec<u8>, token_nonce: u64) -> (r:
        Option<Vec<u8>>)
        requires
            self.spec_world()@.accounts.contains_key(address@),
        ensures
            ({
                let acc = self.spec_world()@.accounts[address@];
                match r {
                    Some(b) => acc.dct.contains_key(token_id@)
                        && acc.dct[token_id@].instances.contains_key(token_nonce) && b@
                        == acc.dct[token_id@].instances[token_nonce].metadata.attributes,
                    None => !(acc.dct.contains_key(token_id@)
                        && acc.dct[token_id@].instances.contains_key(token_nonce)),
                }
            }),
    {
        match self.world.accounts.get(address) {
            Some(acc) => match acc.dct.get_by_identifier(token_id) {
                Some(dct_data) => match dct_data.instances.get_by_nonce(token_nonce) {
                    Some(inst) => Some(inst.metadata.attributes.clone()),
                    None => None,
                },
                None => None,
            },
            None => unreached(),
        }
    }

    /// Sets the epoch of the current block and records the block metadata.
    pub fn set_block_epoch(&mut self, block_epoch: u64)
        ensures
            final(self).spec_world()@ == (WorldV { current_block: (BlockInfoV { block_epoch: block_epoch, ..old(self).spec_world()@.current_block }), ..old(self).spec_world()@ }),
            final(self).spec_gen()@ == old(self).spec_gen()@.push(StepV::SetBlockInfo { current: (BlockInfoV { block_epoch: block_epoch, ..old(self).spec_world()@.current_block }), previous: old(self).spec_world()@.previous_block }),
            final(self).spec_factory() == old(self).spec_factory(),
            final(self).spec_code_paths() == old(self).spec_code_paths(),
    {
        self.world.current_block_info.block_epoch = block_epoch;
        self.denali_generator.set_block_info(
            &self.world.current_block_info,
            &self.world.previous_block_info,
        );
        proof {
            assert(final(self).spec_world()@ =~= (WorldV { current_block: (BlockInfoV { block_epoch: block_epoch, ..old(self).spec_world()@.current_block }), ..old(self).spec_world()@ }));
            assert(self.world.current_block_info@ =~= (BlockInfoV { block_epoch: block_epoch, ..old(self).spec_world()@.current_block }));
        }
    }

    /// Sets the nonce of the current block and records the block metadata.
    pub fn set_block_nonce(&mut self, block_nonce: u64)
        ensures
            final(self).spec_world()@ == (WorldV { current_block: (BlockInfoV { block_nonce: block_nonce, ..old(self).spec_world()@.current_block }), ..old(self).spec_world()@ }),
            final(self).spec_gen()@ == old(self).spec_gen()@.push(StepV::SetBlockInfo { current: (BlockInfoV { block_nonce: block_nonce, ..old(self).spec_world()@.current_block }), previous: old(self).spec_world()@.previous_block }),
            final(self).spec_factory() == old(self).spec_factory(),
            final(self).spec_code_paths() == old(self).spec_code_paths(),
    {
        self.world.current_block_info.block_nonce = block_nonce;
        self.denali_generator.set_block_info(
            &self.world.current_block_info,
            &self.world.previous_block_info,
        );
        proof {
            assert(final(self).spec_world()@ =~= (WorldV { current_block: (BlockInfoV { block_nonce: block_nonce, ..old(self).spec_world()@.current_block }), ..old(self).spec_world()@ }));
            assert(self.world.current_block_info@ =~= (BlockInfoV { block_nonce: block_nonce, ..old(self).spec_world()@.current_block }));
        }
    }

    /// Sets the round of the current block and records the block metadata.
    pub fn set_block_round(&mut self, block_round: u64)
        ensures
            final(self).spec_world()@ == (WorldV { current_block: (BlockInfoV { block_round: block_round, ..old(self).spec_world()@.current_block }), ..old(self).spec_world()@ }),
            final(self).spec_gen()@ == old(self).spec_gen()@.push(StepV::SetBlockInfo { current: (BlockInfoV { block_round: block_round, ..old(self).spec_world()@.current_block }), previous: old(self).spec_world()@.previous_block }),
            final(self).spec_factory() == old(self).spec_factory(),
            final(self).spec_code_paths() == old(self).spec_code_paths(),
    {
        self.world.current_block_info.block_round = block_round;
        self.denali_generator.set_block_info(
            &self.world.current_block_info,
            &self.world.previous_block_info,
        );
        proof {
            assert(final(self).spec_world()@ =~= (WorldV { current_block: (BlockInfoV { block_round: block_round, ..old(self).spec_world()@.current_block }), ..old(self).spec_world()@ }));
            assert(self.world.current_block_info@ =~= (BlockInfoV { block_round: block_round, ..old(self).spec_world()@.current_block }));
        }
    }

    /// Sets the timestamp of the current block and records the block metadata.
    pub fn set_block_timestamp(&mut self, block_timestamp: u64)
        ensures
            final(self).spec_world()@ == (WorldV { current_block: (BlockInfoV { block_timestamp: block_timestamp, ..old(self).spec_world()@.current_block }), ..old(self).spec_world()@ }),
            final(self).spec_gen()@ == old(self).spec_gen()@.push(StepV::SetBlockInfo { current: (BlockInfoV { block_timestamp: block_timestamp, ..old(self).spec_world()@.current_block }), previous: old(self).spec_world()@.previous_block }),
            final(self).spec_factory() == old(self).spec_factory(),
            final(self).spec_code_paths() == old(self).spec_code_paths(),
    {
        self.world.current_block_info.block_timestamp = block_timestamp;
        self.denali_generator.set_block_info(
            &self.world.current_block_info,
            &self.world.previous_block_info,
        );
        proof {
            assert(final(self).spec_world()@ =~= (WorldV { current_block: (BlockInfoV { block_timestamp: block_timestamp, ..old(self).spec_world()@.current_block }), ..old(self).spec_world()@ }));
            assert(self.world.current_block_info@ =~= (BlockInfoV { block_timestamp: block_timestamp, ..old(self).spec_world()@.current_block }));
        }
    }

    /// Sets the random seed of the current block and records the block
    /// metadata.
    pub fn set_block_random_seed(&mut self, block_random_seed: Vec<u8>)
        requires
            block_random_seed@.len() == 48,
        ensures
            final(self).spec_world()@ == (WorldV { current_block: (BlockInfoV { block_random_seed: block_random_seed@, ..old(self).spec_world()@.current_block }), ..old(self).spec_world()@ }),
            final(self).spec_gen()@ == old(self).spec_gen()@.push(StepV::SetBlockInfo { current: (BlockInfoV { block_random_seed: block_random_seed@, ..old(self).spec_world()@.current_block }), previous: old(self).spec_world()@.previous_block }),
            final(self).spec_factory() == old(self).spec_factory(),
            final(self).spec_code_paths() == old(self).spec_code_paths(),
    {
        self.world.current_block_info.block_random_seed = block_random_seed;
        self.denali_generator.set_block_info(
            &self.world.current_block_info,
            &self.world.previous_block_info,
        );
        proof {
            assert(final(self).spec_world()@ =~= (WorldV { current_block: (BlockInfoV { block_random_seed: block_random_seed@, ..old(self).spec_world()@.current_block }), ..old(self).spec_world()@ }));
            assert(self.world.current_block_info@ =~= (BlockInfoV { block_random_seed: block_random_seed@, ..old(self).spec_world()@.current_block }));
        }
    }

    /// Sets the epoch of the previous block and records the block metadata.
    pub fn set_prev_block_epoch(&mut self, block_epoch: u64)
        ensures
            final(self).spec_world()@ == (WorldV { previous_block: (BlockInfoV { block_epoch: block_epoch, ..old(self).spec_world()@.previous_block }), ..old(self).spec_world()@ }),
            final(self).spec_gen()@ == old(self).spec_gen()@.push(StepV::SetBlockInfo { current: old(self).spec_world()@.current_block, previous: (BlockInfoV { block_epoch: block_epoch, ..old(self).spec_world()@.previous_block }) }),
            final(self).spec_factory() == old(self).spec_factory(),
            final(self).spec_code_paths() == old(self).spec_code_paths(),
    {
        self.world.previous_block_info.block_epoch = block_epoch;
        self.denali_generator.set_block_info(
            &self.world.current_block_info,
            &self.world.previous_block_info,
        );
        proof {
            assert(final(self).spec_world()@ =~= (WorldV { previous_block: (BlockInfoV { block_epoch: block_epoch, ..old(self).spec_world()@.previous_block }), ..old(self).spec_world()@ }));
            assert(self.world.previous_block_info@ =~= (BlockInfoV { block_epoch: block_epoch, ..old(self).spec_world()@.previous_block }));
        }
    }

    /// Sets the nonce of the previous block and records the block metadata.
    pub fn set_prev_block_nonce(&mut self, block_nonce: u64)
        ensures
            final(self).spec_world()@ == (WorldV { previous_block: (BlockInfoV { block_nonce: block_nonce, ..old(self).spec_world()@.previous_block }), ..old(self).spec_world()@ }),
            final(self).spec_gen()@ == old(self).spec_gen()@.push(StepV::SetBlockInfo { current: old(self).spec_world()@.current_block, previous: (BlockInfoV { block_nonce: block_nonce, ..old(self).spec_world()@.previous_block }) }),
            final(self).spec_factory() == old(self).spec_factory(),
            final(self).spec_code_paths() == old(self).spec_code_paths(),
    {
        self.world.previous_block_info.block_nonce = block_nonce;
        self.denali_generator.set_block_info(
            &self.world.current_block_info,
            &self.world.previous_block_info,
        );
        proof {
            assert(final(self).spec_world()@ =~= (WorldV { previous_block: (BlockInfoV { block_nonce: block_nonce, ..old(self).spec_world()@.previous_block }), ..old(self).spec_world()@ }));
            assert(self.world.previous_block_info@ =~= (BlockInfoV { block_nonce: block_nonce, ..old(self).spec_world()@.previous_block }));
        }
    }

    /// Sets the round of the previous block and records the block metadata.
    pub fn set_prev_block_round(&mut self, block_round: u64)
        ensures
            final(self).spec_world()@ == (WorldV { previous_block: (BlockInfoV { block_round: block_round, ..old(self).spec_world()@.previous_block }), ..old(self).spec_world()@ }),
            final(self).spec_gen()@ == old(self).spec_gen()@.push(StepV::SetBlockInfo { current: old(self).spec_world()@.current_block, previous: (BlockInfoV { block_round: block_round, ..old(self).spec_world()@.previous_block }) }),
            final(self).spec_factory() == old(self).spec_factory(),
            final(self).spec_code_paths() == old(self).spec_code_paths(),
    {
        self.world.previous_block_info.block_round = block_round;
        self.denali_generator.set_block_info(
            &self.world.current_block_info,
            &self.world.previous_block_info,
        );
        proof {
            assert(final(self).spec_world()@ =~= (WorldV { previous_block: (BlockInfoV { block_round: block_round, ..old(self).spec_world()@.previous_block }), ..old(self).spec_world()@ }));
            assert(self.world.previous_block_info@ =~= (BlockInfoV { block_round: block_round, ..old(self).spec_world()@.previous_block }));
        }
    }

    /// Sets the timestamp of the previous block and records the block metadata.
    pub fn set_prev_block_timestamp(&mut self, block_timestamp: u64)
        ensures
            final(self).spec_world()@ == (WorldV { previous_block: (BlockInfoV { block_timestamp: block_timestamp, ..old(self).spec_world()@.previous_block }), ..old(self).spec_world()@ }),
            final(self).spec_gen()@ == old(self).spec_gen()@.push(StepV::SetBlockInfo { current: old(self).spec_world()@.current_block, previous: (BlockInfoV { block_timestamp: block_timestamp, ..old(self).spec_world()@.previous_block }) }),
            final(self).spec_factory() == old(self).spec_factory(),
            final(self).spec_code_paths() == old(self).spec_code_paths(),
    {
        self.world.previous_block_info.block_timestamp = block_timestamp;
        self.denali_generator.set_block_info(
            &self.world.current_block_info,
            &self.world.previous_block_info,
        );
        proof {
            assert(final(self).spec_world()@ =~= (WorldV { previous_block: (BlockInfoV { block_timestamp: block_timestamp, ..old(self).spec_world()@.previous_block }), ..old(self).spec_world()@ }));
            assert(self.world.previous_block_info@ =~= (BlockInfoV { block_timestamp: block_timestamp, ..old(self).spec_world()@.previous_block }));
        }
    }

    /// Sets the random seed of the previous block and records the block
    /// metadata.
    pub fn set_prev_block_random_seed(&mut self, block_random_seed: Vec<u8>)
        requires
            block_random_seed@.len() == 48,
        ensures
            final(self).spec_world()@ == (WorldV { previous_block: (BlockInfoV { block_random_seed: block_random_seed@, ..old(self).spec_world()@.previous_block }), ..old(self).spec_world()@ }),
            final(self).spec_gen()@ == old(self).spec_gen()@.push(StepV::SetBlockInfo { current: old(self).spec_world()@.current_block, previous: (BlockInfoV { block_random_seed: block_random_seed@, ..old(self).spec_world()@.previous_block }) }),
            final(self).spec_factory() == old(self).spec_factory(),
            final(self).spec_code_paths() == old(self).spec_code_paths(),
    {
        self.world.previous_block_info.block_random_seed = block_random_seed;
        self.denali_generator.set_block_info(
            &self.world.current_block_info,
            &self.world.previous_block_info,
        );
        proof {
            assert(final(self).spec_world()@ =~= (WorldV { previous_block: (BlockInfoV { block_random_seed: block_random_seed@, ..old(self).spec_world()@.previous_block }), ..old(self).spec_world()@ }));
            assert(self.world.previous_block_info@ =~= (BlockInfoV { block_random_seed: block_random_seed@, ..old(self).spec_world()@.previous_block }));
        }
    }
}

/// An account record after overwriting one token instance's balance, as
/// [`crate::tokens::AccountDct::set_dct_balance`] does: metadata takes effect
/// only where the instance did not previously exist, and `last_nonce`
/// records the high-water mark of nonces seen.
pub open spec fn set_dct_account(
    acc: AccountV,
    id: Seq<u8>,
    nonce: u64,
    balance: nat,
    m: MetaV,
) -> AccountV {
    AccountV {
        dct: acc.dct.insert(
            id,
            dct_data_with_set(
                if acc.dct.contains_key(id) {
                    acc.dct[id]
                } else {
                    dct_data_fresh(id, 0)
                },
                nonce,
                balance,
                m,
            ),
        ),
        ..acc
    }
}

/// An account record after replacing the role set of one token identifier.
pub open spec fn set_roles_account(acc: AccountV, id: Seq<u8>, roles: Seq<Seq<u8>>) -> AccountV {
    AccountV {
        dct: acc.dct.insert(
            id,
            (DctDataV {
                roles: roles,
                ..(if acc.dct.contains_key(id) {
                    acc.dct[id]
                } else {
                    dct_data_fresh(id, 0)
                })
            }),
        ),
        ..acc
    }
}


/// One call frame: the resolved input it was dispatched with and the
/// transaction cache its body mutates.
pub struct TxContext {
    pub input: TxInput,
    pub cache: TxCache,
}

/// A fresh cache over a world snapshot, before any payment is applied.
pub open spec fn fresh_cache(w: WorldV) -> CacheV {
    CacheV { snapshot: w, overlay: Map::empty() }
}

/// The cache after the native payment of transaction setup: debit the
/// caller, credit the destination, in that order; a zero payment touches
/// nothing; an unaffordable payment fails.
pub open spec fn spec_setup_native(
    c: CacheV,
    caller: Seq<u8>,
    dest: Seq<u8>,
    amount: nat,
) -> Result<CacheV, TxPanicV> {
    if amount == 0 {
        Ok(c)
    } else if amount <= cache_moax_balance(c, caller) {
        Ok(cache_add_native(cache_sub_native(c, caller, amount), dest, amount))
    } else {
        Err(native_insufficient_panic())
    }
}

/// The cache after the token payments of transaction setup, applied in the
/// order listed: each debits the caller and credits the destination with the
/// debited instance's metadata; a zero payment touches nothing; the first
/// unaffordable payment fails.
pub open spec fn spec_setup_payments(
    c: CacheV,
    caller: Seq<u8>,
    dest: Seq<u8>,
    ps: Seq<PaymentV>,
) -> Result<CacheV, TxPanicV>
    decreases ps.len(),
{
    if ps.len() == 0 {
        Ok(c)
    } else {
        let p = ps[0];
        if p.value == 0 {
            spec_setup_payments(c, caller, dest, ps.drop_first())
        } else if cache_can_sub_token(c, caller, p.token_identifier, p.nonce, p.value) {
            let c1 = cache_sub_token(c, caller, p.token_identifier, p.nonce, p.value);
            let m = cache_token_meta(c, caller, p.token_identifier, p.nonce);
            let c2 = cache_add_token(c1, dest, p.token_identifier, p.nonce, p.value, m);
            spec_setup_payments(c2, caller, dest, ps.drop_first())
        } else {
            Err(token_insufficient_panic())
        }
    }
}

/// The whole setup step of a transaction: a fresh cache over the world, the
/// native payment, then the token payments in order. Any affordability
/// failure aborts before any contract code runs.
pub open spec fn spec_setup(
    w: WorldV,
    caller: Seq<u8>,
    dest: Seq<u8>,
    moax: nat,
    ps: Seq<PaymentV>,
) -> Result<CacheV, TxPanicV> {
    match spec_setup_native(fresh_cache(w), caller, dest, moax) {
        Ok(c) => spec_setup_payments(c, caller, dest, ps),
        Err(p) => Err(p),
    }
}

/// The world after folding a cache overlay into it: overridden accounts win,
/// block metadata is untouched.
pub open spec fn world_commit(w: WorldV, overlay: Map<Seq<u8>, AccountV>) -> WorldV {
    WorldV { accounts: w.accounts.union_prefer_right(overlay), ..w }
}

/// View of a dispatched body's outcome.
pub open spec fn outcome_view(o: Result<StateChange, TxPanic>) -> Result<StateChange, TxPanicV> {
    match o {
        Ok(sc) => Ok(sc),
        Err(p) => Err(p@),
    }
}

/// The world after a transaction concludes: only a Commit directive folds
/// the cache overlay back; Revert and an intercepted failure leave the world
/// exactly as it was.
pub open spec fn world_after_outcome(
    w: WorldV,
    c: CacheV,
    out: Result<StateChange, TxPanicV>,
) -> WorldV {
    match out {
        Ok(StateChange::Commit) => world_commit(w, c.overlay),
        Ok(StateChange::Revert) => w,
        Err(_) => w,
    }
}

/// The result a transaction concludes with: empty on Commit and on Revert,
/// the caught failure's status and message otherwise.
pub open spec fn result_of_outcome(out: Result<StateChange, TxPanicV>) -> TxResultV {
    match out {
        Ok(_) => tx_result_success(),
        Err(p) => tx_result_of_panic(p),
    }
}

/// The input a payment-only dispatch is built from: no function name, no
/// arguments, unlimited gas at price zero.
pub open spec fn spec_tx_input(
    caller: Seq<u8>,
    dest: Seq<u8>,
    moax: nat,
    ps: Seq<PaymentV>,
) -> TxInputV {
    TxInputV {
        from: caller,
        to: dest,
        moax_value: moax,
        dct_values: ps,
        func_name: Seq::empty(),
        args: Seq::empty(),
        gas_limit: u64::MAX,
        gas_price: 0,
    }
}

fn build_tx_input(
    caller: &Address,
    dest: &Address,
    moax_value: &BigNat,
    dct_values: Vec<TxInputDCT>,
) -> (r: TxInput)
    ensures
        r@ == spec_tx_input(caller@, dest@, moax_value@, payments_view(dct_values@)),
{
    let r = TxInput {
        from: caller.clone(),
        to: dest.clone(),
        moax_value: moax_value.clone(),
        dct_values,
        func_name: Vec::new(),
        args: Vec::new(),
        gas_limit: u64::MAX,
        gas_price: 0,
    };
    proof {
        assert(r@.args =~= Seq::<Seq<u8>>::empty());
        assert(r@ =~= spec_tx_input(caller@, dest@, moax_value@, payments_view(r.dct_values@)));
    }
    r
}

/// Folds a transaction overlay into the world under single-writer
/// discipline: every overridden account replaces (or creates) its record,
/// block metadata stays untouched.
fn commit_overlay(world: &mut BlockchainMock, overlay: AccountMap)
    ensures
        final(world)@ == world_commit(old(world)@, overlay@),
{
    let entries = overlay.entries();
    let ghost w0 = old(world)@;
    let mut i: usize = entries.len();
    proof {
        assert(entries@.skip(i as int) =~= Seq::<AccountData>::empty());
        assert(w0.accounts.union_prefer_right(Map::empty()) =~= w0.accounts);
        assert(world@ =~= (WorldV {
            accounts: w0.accounts.union_prefer_right(account_map(entries@.skip(i as int))),
            ..w0
        }));
    }
    while i > 0
        invariant
            i <= entries@.len(),
            world@ == (WorldV {
                accounts: w0.accounts.union_prefer_right(account_map(entries@.skip(i as int))),
                ..w0
            }),
        decreases i,
    {
        i = i - 1;
        world.add_account(entries[i].clone());
        proof {
            assert(entries@.skip(i as int).drop_first() =~= entries@.skip(i as int + 1));
            let e = entries@[i as int];
            assert(account_map(entries@.skip(i as int)) == account_map(
                entries@.skip(i as int + 1),
            ).insert(e.address@, e@));
            assert(w0.accounts.union_prefer_right(
                account_map(entries@.skip(i as int + 1)),
            ).insert(e.address@, e@) =~= w0.accounts.union_prefer_right(
                account_map(entries@.skip(i as int)),
            ));
            assert(world@ =~= (WorldV {
                accounts: w0.accounts.union_prefer_right(account_map(entries@.skip(i as int))),
                ..w0
            }));
        }
    }
    proof {
        assert(entries@.skip(0) =~= entries@);
        assert(final(world)@ =~= world_commit(w0, overlay@));
    }
}

impl BlockchainStateWrapper {
    /// Runs one top-level transaction: applies the native and token payments
    /// into a fresh cache over the current world, dispatches the supplied
    /// body against the resulting context, and concludes by the directive the
    /// body returns. An affordability failure during setup aborts before the
    /// body runs, leaves the world untouched, and comes back on the failure
    /// channel: it is not converted into an ordinary result, so the caller
    /// treats it as fatal. A failure raised inside the body is caught once,
    /// at this dispatch boundary, and converted into an ordinary result.
    /// Only a Commit directive folds the accumulated overlay back into the
    /// world; Revert and an intercepted failure leave the world exactly as
    /// it was.
    #[verifier::loop_isolation(false)]
    pub fn execute_tx_any<F: FnOnce(TxContext) -> (TxContext, Result<StateChange, TxPanic>)>(
        &mut self,
        caller: &Address,
        sc_wrapper: &ContractObjWrapper,
        moax_payment: &BigNat,
        dct_payments: Vec<TxInputDCT>,
        tx_fn: F,
    ) -> (r: Result<TxResult, TxPanic>)
        requires
            old(self).spec_world()@.accounts.contains_key(caller@),
            old(self).spec_world()@.accounts.contains_key(sc_wrapper@),
            forall|c: TxContext| #[trigger] call_requires(tx_fn, (c,)),
        ensures
            final(self).spec_gen() == old(self).spec_gen(),
            final(self).spec_factory() == old(self).spec_factory(),
            final(self).spec_code_paths() == old(self).spec_code_paths(),
            match spec_setup(
                old(self).spec_world()@,
                caller@,
                sc_wrapper@,
                moax_payment@,
                payments_view(dct_payments@),
            ) {
                Err(p) => (match r {
                    Err(f) => f@ == p,
                    Ok(_) => false,
                }) && final(self).spec_world() == old(self).spec_world(),
                Ok(c0) => exists|ctx_in: TxContext, out: (TxContext, Result<StateChange, TxPanic>)|
                    {
                        &&& ctx_in.cache@ == c0
                        &&& ctx_in.input@ == spec_tx_input(
                            caller@,
                            sc_wrapper@,
                            moax_payment@,
                            payments_view(dct_payments@),
                        )
                        &&& #[trigger] call_ensures(tx_fn, (ctx_in,), out)
                        &&& final(self).spec_world()@ == world_after_outcome(
                            old(self).spec_world()@,
                            out.0.cache@,
                            outcome_view(out.1),
                        )
                        &&& match r {
                            Ok(res) => res@ == result_of_outcome(outcome_view(out.1)),
                            Err(_) => false,
                        }
                    },
            },
    {
        let dest = sc_wrapper.address_ref();
        let ghost w0 = self.world@;
        let ghost pv = payments_view(dct_payments@);
        let snapshot = self.world.clone();
        let mut cache = TxCache::new(snapshot);
        proof {
            assert(cache@ =~= fresh_cache(w0));
        }

        if !moax_payment.is_zero() {
            match cache.subtract_moax_balance(caller, moax_payment) {
                Ok(_) => {},
                Err(p) => {
                    proof {
                        assert(spec_setup(
                            old(self).spec_world()@,
                            caller@,
                            sc_wrapper@,
                            moax_payment@,
                            payments_view(dct_payments@),
                        ) == Err::<CacheV, TxPanicV>(native_insufficient_panic()));
                    }
                    return Err(p);
                },
            }
            proof {
                assert(cache_has_account(cache@, dest@));
            }
            cache.increase_moax_balance(dest, moax_payment);
        }
        proof {
            assert(Ok::<CacheV, TxPanicV>(cache@) == spec_setup_native(
                fresh_cache(w0),
                caller@,
                dest@,
                moax_payment@,
            ));
            assert(pv.skip(0) =~= pv);
        }

        let mut i: usize = 0;
        while i < dct_payments.len()
            invariant
                i <= dct_payments@.len(),
                pv == payments_view(dct_payments@),
                pv.len() == dct_payments@.len(),
                cache_has_account(cache@, caller@),
                cache_has_account(cache@, dest@),
                spec_setup(w0, caller@, dest@, moax_payment@, pv) == spec_setup_payments(
                    cache@,
                    caller@,
                    dest@,
                    pv.skip(i as int),
                ),
            decreases dct_payments@.len() - i,
        {
            let ghost cache_pre = cache@;
            let p_value_zero = dct_payments[i].value.is_zero();
            if !p_value_zero {
                let meta = match cache.subtract_dct_balance(
                    caller,
                    &dct_payments[i].token_identifier,
                    dct_payments[i].nonce,
                    &dct_payments[i].value,
                ) {
                    Ok(meta) => meta,
                    Err(p) => {
                        proof {
                            assert(spec_setup_payments(
                                cache_pre,
                                caller@,
                                dest@,
                                pv.skip(i as int),
                            ) == Err::<CacheV, TxPanicV>(token_insufficient_panic()));
                            assert(spec_setup(
                                old(self).spec_world()@,
                                caller@,
                                sc_wrapper@,
                                moax_payment@,
                                payments_view(dct_payments@),
                            ) == Err::<CacheV, TxPanicV>(token_insufficient_panic()));
                        }
                        return Err(p);
                    },
                };
                proof {
                    assert(cache_has_account(cache@, caller@));
                    assert(cache_has_account(cache@, dest@));
                }
                cache.increase_dct_balance(
                    dest,
                    &dct_payments[i].token_identifier,
                    dct_payments[i].nonce,
                    &dct_payments[i].value,
                    meta,
                );
                proof {
                    assert(cache_has_account(cache@, caller@));
                    assert(cache_has_account(cache@, dest@));
                }
            }
            proof {
                assert(pv.skip(i as int).drop_first() =~= pv.skip(i as int + 1));
                assert(pv.skip(i as int)[0] == dct_payments@[i as int]@);
                assert(spec_setup(w0, caller@, dest@, moax_payment@, pv) == spec_setup_payments(
                    cache@,
                    caller@,
                    dest@,
                    pv.skip(i as int + 1),
                ));
            }
            i = i + 1;
        }
        proof {
            assert(pv.skip(dct_payments@.len() as int) =~= Seq::<PaymentV>::empty());
            assert(spec_setup(w0, caller@, dest@, moax_payment@, pv) == Ok::<
                CacheV,
                TxPanicV,
            >(cache@));
        }

        let tx_input = build_tx_input(caller, dest, moax_payment, dct_payments);
        let ctx = TxContext { input: tx_input, cache };
        let ghost ctx_g = ctx;
        let res = tx_fn(ctx);
        let ghost res_g = res;
        let (ctx_out, outcome) = res;
        let ghost out_cache_v = res_g.0.cache@;
        match outcome {
            Ok(sc) => match sc {
                StateChange::Commit => {
                    let overlay = ctx_out.cache.into_overlay();
                    commit_overlay(&mut self.world, overlay);
                    let r = TxResult::empty();
                    proof {
                        assert(final(self).spec_world()@ == world_after_outcome(
                            w0,
                            out_cache_v,
                            outcome_view(res_g.1),
                        ));
                    }
                    Ok(r)
                },
                StateChange::Revert => Ok(TxResult::empty()),
            },
            Err(p) => Ok(TxResult::from_panic(p)),
        }
    }
}


/// The result a query concludes with: empty unless the body failed.
pub open spec fn query_result_of(o: Result<(), TxPanic>) -> TxResultV {
    match o {
        Ok(_) => tx_result_success(),
        Err(p) => tx_result_of_panic(p@),
    }
}

impl BlockchainStateWrapper {
    /// Runs one transaction with a native-coin payment only; a setup
    /// affordability failure comes back on the fatal failure channel.
    pub fn execute_tx<F: FnOnce(TxContext) -> (TxContext, Result<StateChange, TxPanic>)>(
        &mut self,
        caller: &Address,
        sc_wrapper: &ContractObjWrapper,
        moax_payment: &BigNat,
        tx_fn: F,
    ) -> (r: Result<TxResult, TxPanic>)
        requires
            old(self).spec_world()@.accounts.contains_key(caller@),
            old(self).spec_world()@.accounts.contains_key(sc_wrapper@),
            forall|c: TxContext| #[trigger] call_requires(tx_fn, (c,)),
        ensures
            final(self).spec_gen() == old(self).spec_gen(),
            final(self).spec_factory() == old(self).spec_factory(),
            final(self).spec_code_paths() == old(self).spec_code_paths(),
            match spec_setup(
                old(self).spec_world()@,
                caller@,
                sc_wrapper@,
                moax_payment@,
                Seq::<PaymentV>::empty(),
            ) {
                Err(p) => (match r {
                    Err(f) => f@ == p,
                    Ok(_) => false,
                }) && final(self).spec_world() == old(self).spec_world(),
                Ok(c0) => exists|ctx_in: TxContext, out: (TxContext, Result<StateChange, TxPanic>)|
                    {
                        &&& ctx_in.cache@ == c0
                        &&& ctx_in.input@ == spec_tx_input(
                            caller@,
                            sc_wrapper@,
                            moax_payment@,
                            Seq::<PaymentV>::empty(),
                        )
                        &&& #[trigger] call_ensures(tx_fn, (ctx_in,), out)
                        &&& final(self).spec_world()@ == world_after_outcome(
                            old(self).spec_world()@,
                            out.0.cache@,
                            outcome_view(out.1),
                        )
                        &&& match r {
                            Ok(res) => res@ == result_of_outcome(outcome_view(out.1)),
                            Err(_) => false,
                        }
                    },
            },
    {
        let empty_payments: Vec<TxInputDCT> = Vec::new();
        proof {
            assert(payments_view(empty_payments@) =~= Seq::<PaymentV>::empty());
        }
        self.execute_tx_any(caller, sc_wrapper, moax_payment, empty_payments, tx_fn)
    }

    /// Runs one transaction with a single token payment; a setup
    /// affordability failure comes back on the fatal failure channel.
    pub fn execute_dct_transfer<F: FnOnce(TxContext) -> (TxContext, Result<StateChange, TxPanic>)>(
        &mut self,
        caller: &Address,
        sc_wrapper: &ContractObjWrapper,
        token_id: &Vec<u8>,
        dct_nonce: u64,
        dct_amount: &BigNat,
        tx_fn: F,
    ) -> (r: Result<TxResult, TxPanic>)
        requires
            old(self).spec_world()@.accounts.contains_key(caller@),
            old(self).spec_world()@.accounts.contains_key(sc_wrapper@),
            forall|c: TxContext| #[trigger] call_requires(tx_fn, (c,)),
        ensures
            final(self).spec_gen() == old(self).spec_gen(),
            final(self).spec_factory() == old(self).spec_factory(),
            final(self).spec_code_paths() == old(self).spec_code_paths(),
            match spec_setup(
                old(self).spec_world()@,
                caller@,
                sc_wrapper@,
                0,
                seq![
                    PaymentV {
                        token_identifier: token_id@,
                        nonce: dct_nonce,
                        value: dct_amount@,
                    },
                ],
            ) {
                Err(p) => (match r {
                    Err(f) => f@ == p,
                    Ok(_) => false,
                }) && final(self).spec_world() == old(self).spec_world(),
                Ok(c0) => exists|ctx_in: TxContext, out: (TxContext, Result<StateChange, TxPanic>)|
                    {
                        &&& ctx_in.cache@ == c0
                        &&& ctx_in.input@ == spec_tx_input(
                            caller@,
                            sc_wrapper@,
                            0,
                            seq![
                                PaymentV {
                                    token_identifier: token_id@,
                                    nonce: dct_nonce,
                                    value: dct_amount@,
                                },
                            ],
                        )
                        &&& #[trigger] call_ensures(tx_fn, (ctx_in,), out)
                        &&& final(self).spec_world()@ == world_after_outcome(
                            old(self).spec_world()@,
                            out.0.cache@,
                            outcome_view(out.1),
                        )
                        &&& match r {
                            Ok(res) => res@ == result_of_outcome(outcome_view(out.1)),
                            Err(_) => false,
                        }
                    },
            },
    {
        let mut dct_transfer: Vec<TxInputDCT> = Vec::new();
        dct_transfer.push(TxInputDCT {
            token_identifier: token_id.clone(),
            nonce: dct_nonce,
            value: dct_amount.clone(),
        });
        let zero = BigNat::zero();
        proof {
            assert(payments_view(dct_transfer@) =~= seq![
                PaymentV { token_identifier: token_id@, nonce: dct_nonce, value: dct_amount@ },
            ]);
        }
        self.execute_tx_any(caller, sc_wrapper, &zero, dct_transfer, tx_fn)
    }

    /// Runs one transaction with a list of token payments, applied in the
    /// order given; a setup affordability failure comes back on the fatal
    /// failure channel.
    pub fn execute_dct_multi_transfer<
        F: FnOnce(TxContext) -> (TxContext, Result<StateChange, TxPanic>),
    >(
        &mut self,
        caller: &Address,
        sc_wrapper: &ContractObjWrapper,
        dct_transfers: &Vec<TxInputDCT>,
        tx_fn: F,
    ) -> (r: Result<TxResult, TxPanic>)
        requires
            old(self).spec_world()@.accounts.contains_key(caller@),
            old(self).spec_world()@.accounts.contains_key(sc_wrapper@),
            forall|c: TxContext| #[trigger] call_requires(tx_fn, (c,)),
        ensures
            final(self).spec_gen() == old(self).spec_gen(),
            final(self).spec_factory() == old(self).spec_factory(),
            final(self).spec_code_paths() == old(self).spec_code_paths(),
            match spec_setup(
                old(self).spec_world()@,
                caller@,
                sc_wrapper@,
                0,
                payments_view(dct_transfers@),
            ) {
                Err(p) => (match r {
                    Err(f) => f@ == p,
                    Ok(_) => false,
                }) && final(self).spec_world() == old(self).spec_world(),
                Ok(c0) => exists|ctx_in: TxContext, out: (TxContext, Result<StateChange, TxPanic>)|
                    {
                        &&& ctx_in.cache@ == c0
                        &&& ctx_in.input@ == spec_tx_input(
                            caller@,
                            sc_wrapper@,
                            0,
                            payments_view(dct_transfers@),
                        )
                        &&& #[trigger] call_ensures(tx_fn, (ctx_in,), out)
                        &&& final(self).spec_world()@ == world_after_outcome(
                            old(self).spec_world()@,
                            out.0.cache@,
                            outcome_view(out.1),
                        )
                        &&& match r {
                            Ok(res) => res@ == result_of_outcome(outcome_view(out.1)),
                            Err(_) => false,
                        }
                    },
            },
    {
        let mut transfers: Vec<TxInputDCT> = Vec::new();
        let mut i: usize = 0;
        while i < dct_transfers.len()
            invariant
                i <= dct_transfers@.len(),
                transfers@.len() == i,
                forall|j: int| 0 <= j < i ==> transfers@[j]@ == dct_transfers@[j]@,
            decreases dct_transfers@.len() - i,
        {
            transfers.push(dct_transfers[i].clone());
            i = i + 1;
        }
        let zero = BigNat::zero();
        proof {
            assert(payments_view(transfers@) =~= payments_view(dct_transfers@));
        }
        self.execute_tx_any(caller, sc_wrapper, &zero, transfers, tx_fn)
    }

    /// Dispatches a read-only query: the body runs against a fresh cache
    /// over the current world, and whatever it did is discarded, so a query
    /// produces no observable change to the world.
    pub fn execute_query<F: FnOnce(TxContext) -> (TxContext, Result<(), TxPanic>)>(
        &mut self,
        sc_wrapper: &ContractObjWrapper,
        query_fn: F,
    ) -> (r: TxResult)
        requires
            old(self).spec_world()@.accounts.contains_key(sc_wrapper@),
            forall|c: TxContext| #[trigger] call_requires(query_fn, (c,)),
        ensures
            final(self).spec_world() == old(self).spec_world(),
            final(self).spec_gen() == old(self).spec_gen(),
            final(self).spec_factory() == old(self).spec_factory(),
            final(self).spec_code_paths() == old(self).spec_code_paths(),
            exists|ctx_in: TxContext, out: (TxContext, Result<(), TxPanic>)|
                {
                    &&& ctx_in.cache@ == fresh_cache(old(self).spec_world()@)
                    &&& ctx_in.input@ == spec_tx_input(
                        sc_wrapper@,
                        sc_wrapper@,
                        0,
                        Seq::<PaymentV>::empty(),
                    )
                    &&& #[trigger] call_ensures(query_fn, (ctx_in,), out)
                    &&& r@ == query_result_of(out.1)
                },
    {
        let dest = sc_wrapper.address_ref();
        let snapshot = self.world.clone();
        let cache = TxCache::new(snapshot);
        let zero = BigNat::zero();
        let empty_payments: Vec<TxInputDCT> = Vec::new();
        proof {
            assert(payments_view(empty_payments@) =~= Seq::<PaymentV>::empty());
        }
        let tx_input = build_tx_input(dest, dest, &zero, empty_payments);
        let ctx = TxContext { input: tx_input, cache };
        proof {
            assert(ctx.cache@ =~= fresh_cache(old(self).spec_world()@));
        }
        let ghost ctx_g = ctx;
        let res = query_fn(ctx);
        let ghost res_g = res;
        let (_ctx_out, outcome) = res;
        match outcome {
            Ok(_) => TxResult::empty(),
            Err(p) => TxResult::from_panic(p),
        }
    }
}

} // verus!
