//! The copy-on-write transaction cache and its balance operations.
//!
//! A cache overlays a world-state snapshot: reads fall through to the
//! snapshot where no local override exists, every write creates or updates
//! only the local override. The snapshot itself is never mutated; folding the
//! overlay back into the world happens once, at transaction teardown, and
//! only on commit.

use vstd::prelude::*;
use vstd::pervasive::unreached;

use crate::address::Address;
use crate::bignat::BigNat;
use crate::tokens::DctInstanceMetadata;
use crate::tokens::MetaV;
use crate::tokens::dct_data_fresh;
use crate::tokens::dct_data_with_increase;
use crate::tokens::dct_data_with_set;
use crate::tokens::token_balance_of;
use crate::tx::TxPanic;
use crate::tx::gas_insufficient_panic;
use crate::tx::native_insufficient_panic;
use crate::tx::token_insufficient_panic;
use crate::world::AccountData;
use crate::world::AccountMap;
use crate::world::AccountV;
use crate::world::BlockchainMock;
use crate::world::WorldV;

verus! {

/// View of a transaction cache: the backing snapshot and the private
/// overlay of changed accounts.
#[verifier::ext_equal]
pub ghost struct CacheV {
    pub snapshot: WorldV,
    pub overlay: Map<Seq<u8>, AccountV>,
}

/// The account an address resolves to in a cache: the local override if one
/// exists, the snapshot's record otherwise.
pub open spec fn cache_account(c: CacheV, a: Seq<u8>) -> Option<AccountV> {
    if c.overlay.contains_key(a) {
        Some(c.overlay[a])
    } else if c.snapshot.accounts.contains_key(a) {
        Some(c.snapshot.accounts[a])
    } else {
        None
    }
}

/// Whether an address resolves to an account in a cache.
pub open spec fn cache_has_account(c: CacheV, a: Seq<u8>) -> bool {
    cache_account(c, a) is Some
}

/// Native-coin balance of an address in a cache; zero where no account
/// exists.
pub open spec fn cache_moax_balance(c: CacheV, a: Seq<u8>) -> nat {
    match cache_account(c, a) {
        Some(acc) => acc.moax_balance,
        None => 0,
    }
}

/// Token balance of (address, identifier, nonce) in a cache; zero where the
/// account, the identifier or the nonce is absent.
pub open spec fn cache_token_balance(c: CacheV, a: Seq<u8>, id: Seq<u8>, nonce: u64) -> nat {
    match cache_account(c, a) {
        Some(acc) => token_balance_of(acc.dct, id, nonce),
        None => 0,
    }
}

/// The cache after writing one account override.
pub open spec fn with_account(c: CacheV, a: Seq<u8>, acc: AccountV) -> CacheV {
    CacheV { overlay: c.overlay.insert(a, acc), ..c }
}

/// The cache after debiting an address's native balance. Defined where the
/// account exists and can afford the debit.
pub open spec fn cache_sub_native(c: CacheV, a: Seq<u8>, amount: nat) -> CacheV {
    let acc = cache_account(c, a)->Some_0;
    with_account(c, a, AccountV { moax_balance: (acc.moax_balance - amount) as nat, ..acc })
}

/// The cache after crediting an address's native balance. Defined where the
/// account exists.
pub open spec fn cache_add_native(c: CacheV, a: Seq<u8>, amount: nat) -> CacheV {
    let acc = cache_account(c, a)->Some_0;
    with_account(c, a, AccountV { moax_balance: (acc.moax_balance + amount) as nat, ..acc })
}

/// Whether (identifier, nonce) exists under an address with balance at least
/// `amount`: the affordability condition of a token debit.
pub open spec fn cache_can_sub_token(
    c: CacheV,
    a: Seq<u8>,
    id: Seq<u8>,
    nonce: u64,
    amount: nat,
) -> bool {
    match cache_account(c, a) {
        Some(acc) => acc.dct.contains_key(id) && acc.dct[id].instances.contains_key(nonce)
            && amount <= acc.dct[id].instances[nonce].balance,
        None => false,
    }
}

/// The metadata of the instance a token debit would take from. Defined where
/// [`cache_can_sub_token`] holds.
pub open spec fn cache_token_meta(c: CacheV, a: Seq<u8>, id: Seq<u8>, nonce: u64) -> MetaV {
    (cache_account(c, a)->Some_0).dct[id].instances[nonce].metadata
}

/// The cache after debiting (identifier, nonce) under an address: the
/// instance's balance drops by `amount` and its metadata stays; as with any
/// balance write, the record's `last_nonce` high-water mark is raised to the
/// nonce if it was below it. Defined where [`cache_can_sub_token`] holds.
pub open spec fn cache_sub_token(
    c: CacheV,
    a: Seq<u8>,
    id: Seq<u8>,
    nonce: u64,
    amount: nat,
) -> CacheV {
    let acc = cache_account(c, a)->Some_0;
    let d = acc.dct[id];
    let inst = d.instances[nonce];
    with_account(
        c,
        a,
        AccountV {
            dct: acc.dct.insert(
                id,
                dct_data_with_set(d, nonce, (inst.balance - amount) as nat, inst.metadata),
            ),
            ..acc
        },
    )
}

/// The cache after crediting (identifier, nonce) under an address, creating
/// the record and the instance with the given metadata as needed; existing
/// metadata is left untouched, and `last_nonce` records the high-water mark
/// of minted nonces. Defined where the account exists.
pub open spec fn cache_add_token(
    c: CacheV,
    a: Seq<u8>,
    id: Seq<u8>,
    nonce: u64,
    amount: nat,
    m: MetaV,
) -> CacheV {
    let acc = cache_account(c, a)->Some_0;
    let base = if acc.dct.contains_key(id) {
        acc.dct[id]
    } else {
        dct_data_fresh(id, 0)
    };
    with_account(
        c,
        a,
        AccountV { dct: acc.dct.insert(id, dct_data_with_increase(base, nonce, amount, m)), ..acc },
    )
}

/// A copy-on-write overlay over a world-state snapshot. All balance
/// mutations of one transaction happen here first; the overlay is folded
/// into the world only on commit.
pub struct TxCache {
    snapshot: BlockchainMock,
    overlay: AccountMap,
}

impl View for TxCache {
    type V = CacheV;

    closed spec fn view(&self) -> CacheV {
        CacheV { snapshot: self.snapshot@, overlay: self.overlay@ }
    }
}

impl TxCache {
    /// A cache over a snapshot, with an empty overlay.
    pub fn new(snapshot: BlockchainMock) -> (r: TxCache)
        ensures
            r@.snapshot == snapshot@,
            r@.overlay == Map::<Seq<u8>, AccountV>::empty(),
    {
        TxCache { snapshot, overlay: AccountMap::new_empty() }
    }

    /// The overlay of accounts this transaction changed, for folding.
    pub fn into_overlay(self) -> (r: AccountMap)
        ensures
            r@ == self@.overlay,
    {
        self.overlay
    }

    /// A copy of the account an address resolves to: the local override if
    /// one exists, else the snapshot's record untouched.
    pub fn get_account(&self, address: &Address) -> (r: Option<AccountData>)
        ensures
            match r {
                Some(acc) => cache_account(self@, address@) == Some(acc@) && acc.address@
                    == address@,
                None => !cache_has_account(self@, address@),
            },
    {
        match self.overlay.get(address) {
            Some(acc) => Some(acc.clone()),
            None => match self.snapshot.accounts.get(address) {
                Some(acc) => Some(acc.clone()),
                None => None,
            },
        }
    }

    /// Whether an address resolves to an account.
    pub fn has_account(&self, address: &Address) -> (r: bool)
        ensures
            r == cache_has_account(self@, address@),
    {
        match self.get_account(address) {
            Some(_) => true,
            None => false,
        }
    }

    /// Writes one account override.
    pub fn set_account(&mut self, account: AccountData)
        ensures
            final(self)@ == with_account(old(self)@, account.address@, account@),
    {
        self.overlay.upsert(account);
        proof {
            assert(final(self)@ =~= with_account(
                old(self)@,
                final(self)@.overlay[account.address@].address,
                account@,
            ));
        }
    }

    /// Debits an address's native balance. Fails, changing nothing, exactly
    /// when the balance cannot cover the amount: the debit is rejected, never
    /// clamped.
    pub fn subtract_moax_balance(&mut self, address: &Address, call_value: &BigNat) -> (r: Result<
        (),
        TxPanic,
    >)
        requires
            cache_has_account(old(self)@, address@),
        ensures
            match r {
                Ok(_) => call_value@ <= cache_moax_balance(old(self)@, address@) && final(self)@
                    == cache_sub_native(old(self)@, address@, call_value@),
                Err(p) => cache_moax_balance(old(self)@, address@) < call_value@ && final(self)@
                    == old(self)@ && p@ == native_insufficient_panic(),
            },
    {
        match self.get_account(address) {
            Some(mut acc) => {
                if acc.moax_balance.lt(call_value) {
                    return Err(TxPanic::native_insufficient_funds());
                }
                acc.moax_balance = acc.moax_balance.sub(call_value);
                self.set_account(acc);
                proof {
                    assert(final(self)@ =~= cache_sub_native(old(self)@, address@, call_value@));
                }
                Ok(())
            },
            None => unreached(),
        }
    }

    /// Credits an address's native balance; always succeeds, in full
    /// precision.
    pub fn increase_moax_balance(&mut self, address: &Address, amount: &BigNat)
        requires
            cache_has_account(old(self)@, address@),
        ensures
            final(self)@ == cache_add_native(old(self)@, address@, amount@),
    {
        match self.get_account(address) {
            Some(mut acc) => {
                acc.moax_balance = acc.moax_balance.add(amount);
                self.set_account(acc);
                proof {
                    assert(final(self)@ =~= cache_add_native(old(self)@, address@, amount@));
                }
            },
            None => unreached(),
        }
    }

    /// Prepays gas by debiting `gas_limit * gas_price`, before any contract
    /// code runs. Fails, changing nothing, exactly when the balance cannot
    /// cover the product.
    pub fn subtract_tx_gas(&mut self, address: &Address, gas_limit: u64, gas_price: u64) -> (r:
        Result<(), TxPanic>)
        requires
            cache_has_account(old(self)@, address@),
        ensures
            match r {
                Ok(_) => gas_limit * gas_price <= cache_moax_balance(old(self)@, address@)
                    && final(self)@ == cache_sub_native(
                    old(self)@,
                    address@,
                    (gas_limit * gas_price) as nat,
                ),
                Err(p) => cache_moax_balance(old(self)@, address@) < gas_limit * gas_price
                    && final(self)@ == old(self)@ && p@ == gas_insufficient_panic(),
            },
    {
        let gas_cost = BigNat::from_u64_product(gas_limit, gas_price);
        match self.get_account(address) {
            Some(mut acc) => {
                if acc.moax_balance.lt(&gas_cost) {
                    return Err(TxPanic::gas_insufficient_funds());
                }
                acc.moax_balance = acc.moax_balance.sub(&gas_cost);
                self.set_account(acc);
                proof {
                    assert(final(self)@ =~= cache_sub_native(
                        old(self)@,
                        address@,
                        (gas_limit * gas_price) as nat,
                    ));
                }
                Ok(())
            },
            None => unreached(),
        }
    }

    /// Debits (identifier, nonce) under an address and hands back a copy of
    /// the instance's metadata, so a transfer can recreate an identical
    /// instance at the destination. Fails, changing nothing, exactly when the
    /// identifier is absent, the nonce is absent, or the balance cannot cover
    /// the amount.
    pub fn subtract_dct_balance(
        &mut self,
        address: &Address,
        dct_token_identifier: &Vec<u8>,
        nonce: u64,
        value: &BigNat,
    ) -> (r: Result<DctInstanceMetadata, TxPanic>)
        requires
            cache_has_account(old(self)@, address@),
        ensures
            match r {
                Ok(meta) => cache_can_sub_token(
                    old(self)@,
                    address@,
                    dct_token_identifier@,
                    nonce,
                    value@,
                ) && meta@ == cache_token_meta(old(self)@, address@, dct_token_identifier@, nonce)
                    && final(self)@ == cache_sub_token(
                    old(self)@,
                    address@,
                    dct_token_identifier@,
                    nonce,
                    value@,
                ),
                Err(p) => !cache_can_sub_token(
                    old(self)@,
                    address@,
                    dct_token_identifier@,
                    nonce,
                    value@,
                ) && final(self)@ == old(self)@ && p@ == token_insufficient_panic(),
            },
    {
        match self.get_account(address) {
            Some(mut acc) => {
                let (new_balance, metadata) = match acc.dct.get_by_identifier(
                    dct_token_identifier,
                ) {
                    Some(d) => match d.instances.get_by_nonce(nonce) {
                        Some(inst) => {
                            if inst.balance.lt(value) {
                                return Err(TxPanic::token_insufficient_funds());
                            }
                            (inst.balance.sub(value), inst.metadata.clone())
                        },
                        None => {
                            return Err(TxPanic::token_insufficient_funds());
                        },
                    },
                    None => {
                        return Err(TxPanic::token_insufficient_funds());
                    },
                };
                let meta_back = metadata.clone();
                acc.dct.set_dct_balance(
                    dct_token_identifier.clone(),
                    nonce,
                    &new_balance,
                    metadata,
                );
                self.set_account(acc);
                proof {
                    assert(final(self)@ =~= cache_sub_token(
                        old(self)@,
                        address@,
                        dct_token_identifier@,
                        nonce,
                        value@,
                    ));
                }
                Ok(meta_back)
            },
            None => unreached(),
        }
    }

    /// Credits (identifier, nonce) under an address, creating the instance
    /// with the given metadata if absent; existing metadata is authoritative
    /// and is never overwritten.
    pub fn increase_dct_balance(
        &mut self,
        address: &Address,
        dct_token_identifier: &Vec<u8>,
        nonce: u64,
        value: &BigNat,
        dct_metadata: DctInstanceMetadata,
    )
        requires
            cache_has_account(old(self)@, address@),
        ensures
            final(self)@ == cache_add_token(
                old(self)@,
                address@,
                dct_token_identifier@,
                nonce,
                value@,
                dct_metadata@,
            ),
    {
        match self.get_account(address) {
            Some(mut acc) => {
                acc.dct.increase_balance(
                    dct_token_identifier.clone(),
                    nonce,
                    value,
                    dct_metadata,
                );
                self.set_account(acc);
                proof {
                    assert(final(self)@ =~= cache_add_token(
                        old(self)@,
                        address@,
                        dct_token_identifier@,
                        nonce,
                        value@,
                        dct_metadata@,
                    ));
                }
            },
            None => unreached(),
        }
    }

    /// Moves (identifier, nonce) value between two accounts: debits the
    /// sender, then credits the receiver with the debited instance's
    /// metadata. A failing debit aborts before the credit is attempted, so
    /// either both balances change consistently or neither does.
    pub fn transfer_dct_balance(
        &mut self,
        from: &Address,
        to: &Address,
        dct_token_identifier: &Vec<u8>,
        nonce: u64,
        value: &BigNat,
    ) -> (r: Result<(), TxPanic>)
        requires
            cache_has_account(old(self)@, from@),
            cache_has_account(old(self)@, to@),
        ensures
            match r {
                Ok(_) => cache_can_sub_token(
                    old(self)@,
                    from@,
                    dct_token_identifier@,
                    nonce,
                    value@,
                ) && final(self)@ == cache_add_token(
                    cache_sub_token(old(self)@, from@, dct_token_identifier@, nonce, value@),
                    to@,
                    dct_token_identifier@,
                    nonce,
                    value@,
                    cache_token_meta(old(self)@, from@, dct_token_identifier@, nonce),
                ),
                Err(p) => !cache_can_sub_token(
                    old(self)@,
                    from@,
                    dct_token_identifier@,
                    nonce,
                    value@,
                ) && final(self)@ == old(self)@ && p@ == token_insufficient_panic(),
            },
    {
        match self.subtract_dct_balance(from, dct_token_identifier, nonce, value) {
            Ok(metadata) => {
                self.increase_dct_balance(to, dct_token_identifier, nonce, value, metadata);
                Ok(())
            },
            Err(p) => Err(p),
        }
    }
}

} // verus!
