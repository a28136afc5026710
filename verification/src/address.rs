//! Fixed-width byte addresses and the factory that allocates fresh ones.

use vstd::prelude::*;

verus! {

/// Number of bytes in an address.
pub const ADDRESS_LEN: usize = 32;

/// A fixed-width byte identifier for an account. User addresses and contract
/// addresses are told apart by the allocation counter at creation time, not by
/// their content. The view is the byte sequence.
#[derive(Debug)]
pub struct Address {
    bytes: Vec<u8>,
}

impl View for Address {
    type V = Seq<u8>;

    closed spec fn view(&self) -> Seq<u8> {
        self.bytes@
    }
}

impl Address {
    /// An address from raw bytes.
    pub fn new(bytes: Vec<u8>) -> (r: Address)
        ensures
            r@ == bytes@,
    {
        Address { bytes }
    }

    /// The raw bytes of the address.
    pub fn as_bytes(&self) -> (r: &Vec<u8>)
        ensures
            r@ == self@,
    {
        &self.bytes
    }

    /// Byte-wise equality of two addresses.
    pub fn eq_address(&self, other: &Address) -> (r: bool)
        ensures
            r == (self@ == other@),
    {
        bytes_eq(&self.bytes, &other.bytes)
    }
}

impl Clone for Address {
    /// A clone denotes the same address.
    fn clone(&self) -> (r: Self)
        ensures
            r@ == self@,
    {
        Address { bytes: self.bytes.clone() }
    }
}

/// Byte-wise equality of two byte vectors, as equality of their views.
pub fn bytes_eq(a: &Vec<u8>, b: &Vec<u8>) -> (r: bool)
    ensures
        r == (a@ == b@),
{
    let r = *a == *b;
    proof {
        if r {
            assert(a@ =~= b@);
        }
    }
    r
}

/// Allocates fresh addresses from a monotonic counter. Contract addresses get
/// a leading run of zero bytes, user addresses do not, so the two classes can
/// be told apart at a glance in generated scenarios.
pub struct AddressFactory {
    count: u64,
}

/// The counter's little-endian bytes, as embedded in every allocated
/// address.
pub open spec fn counter_bytes(count: u64) -> Seq<u8> {
    Seq::new(8, |i: int| (count >> ((i * 8) as u64)) as u8)
}

/// The bytes of the user address allocated at a given counter value: a
/// marker byte, the counter, and padding up to the fixed width.
pub open spec fn user_address_bytes(count: u64) -> Seq<u8> {
    seq![0x75u8] + counter_bytes(count) + Seq::new(23, |i: int| 0x5fu8)
}

/// The bytes of the contract address allocated at a given counter value:
/// the leading zero run, the counter, and padding up to the fixed width.
pub open spec fn sc_address_bytes(count: u64) -> Seq<u8> {
    Seq::new(8, |i: int| 0u8) + counter_bytes(count) + Seq::new(16, |i: int| 0x5fu8)
}

/// Equal counter bytes come only from equal counters.
proof fn lemma_counter_bytes_injective(c1: u64, c2: u64)
    requires
        counter_bytes(c1) == counter_bytes(c2),
    ensures
        c1 == c2,
{
    assert(counter_bytes(c1)[0] == counter_bytes(c2)[0]);
    assert(counter_bytes(c1)[0] == (c1 >> ((0 * 8) as u64)) as u8);
    assert(counter_bytes(c2)[0] == (c2 >> ((0 * 8) as u64)) as u8);
    assert((c1 >> ((0 * 8) as u64)) as u8 == (c1 >> 0u64) as u8);
    assert((c2 >> ((0 * 8) as u64)) as u8 == (c2 >> 0u64) as u8);
    assert(counter_bytes(c1)[1] == counter_bytes(c2)[1]);
    assert(counter_bytes(c1)[1] == (c1 >> ((1 * 8) as u64)) as u8);
    assert(counter_bytes(c2)[1] == (c2 >> ((1 * 8) as u64)) as u8);
    assert((c1 >> ((1 * 8) as u64)) as u8 == (c1 >> 8u64) as u8);
    assert((c2 >> ((1 * 8) as u64)) as u8 == (c2 >> 8u64) as u8);
    assert(counter_bytes(c1)[2] == counter_bytes(c2)[2]);
    assert(counter_bytes(c1)[2] == (c1 >> ((2 * 8) as u64)) as u8);
    assert(counter_bytes(c2)[2] == (c2 >> ((2 * 8) as u64)) as u8);
    assert((c1 >> ((2 * 8) as u64)) as u8 == (c1 >> 16u64) as u8);
    assert((c2 >> ((2 * 8) as u64)) as u8 == (c2 >> 16u64) as u8);
    assert(counter_bytes(c1)[3] == counter_bytes(c2)[3]);
    assert(counter_bytes(c1)[3] == (c1 >> ((3 * 8) as u64)) as u8);
    assert(counter_bytes(c2)[3] == (c2 >> ((3 * 8) as u64)) as u8);
    assert((c1 >> ((3 * 8) as u64)) as u8 == (c1 >> 24u64) as u8);
    assert((c2 >> ((3 * 8) as u64)) as u8 == (c2 >> 24u64) as u8);
    assert(counter_bytes(c1)[4] == counter_bytes(c2)[4]);
    assert(counter_bytes(c1)[4] == (c1 >> ((4 * 8) as u64)) as u8);
    assert(counter_bytes(c2)[4] == (c2 >> ((4 * 8) as u64)) as u8);
    assert((c1 >> ((4 * 8) as u64)) as u8 == (c1 >> 32u64) as u8);
    assert((c2 >> ((4 * 8) as u64)) as u8 == (c2 >> 32u64) as u8);
    assert(counter_bytes(c1)[5] == counter_bytes(c2)[5]);
    assert(counter_bytes(c1)[5] == (c1 >> ((5 * 8) as u64)) as u8);
    assert(counter_bytes(c2)[5] == (c2 >> ((5 * 8) as u64)) as u8);
    assert((c1 >> ((5 * 8) as u64)) as u8 == (c1 >> 40u64) as u8);
    assert((c2 >> ((5 * 8) as u64)) as u8 == (c2 >> 40u64) as u8);
    assert(counter_bytes(c1)[6] == counter_bytes(c2)[6]);
    assert(counter_bytes(c1)[6] == (c1 >> ((6 * 8) as u64)) as u8);
    assert(counter_bytes(c2)[6] == (c2 >> ((6 * 8) as u64)) as u8);
    assert((c1 >> ((6 * 8) as u64)) as u8 == (c1 >> 48u64) as u8);
    assert((c2 >> ((6 * 8) as u64)) as u8 == (c2 >> 48u64) as u8);
    assert(counter_bytes(c1)[7] == counter_bytes(c2)[7]);
    assert(counter_bytes(c1)[7] == (c1 >> ((7 * 8) as u64)) as u8);
    assert(counter_bytes(c2)[7] == (c2 >> ((7 * 8) as u64)) as u8);
    assert((c1 >> ((7 * 8) as u64)) as u8 == (c1 >> 56u64) as u8);
    assert((c2 >> ((7 * 8) as u64)) as u8 == (c2 >> 56u64) as u8);
    assert(c1 == c2) by (bit_vector)
        requires
            (c1 >> 0u64) as u8 == (c2 >> 0u64) as u8,
            (c1 >> 8u64) as u8 == (c2 >> 8u64) as u8,
            (c1 >> 16u64) as u8 == (c2 >> 16u64) as u8,
            (c1 >> 24u64) as u8 == (c2 >> 24u64) as u8,
            (c1 >> 32u64) as u8 == (c2 >> 32u64) as u8,
            (c1 >> 40u64) as u8 == (c2 >> 40u64) as u8,
            (c1 >> 48u64) as u8 == (c2 >> 48u64) as u8,
            (c1 >> 56u64) as u8 == (c2 >> 56u64) as u8,
    ;
}

/// Freshness of allocated addresses: two distinct counter values yield
/// distinct user addresses and distinct contract addresses, and a user
/// address never equals a contract address. Since the factory's counter only
/// grows, every allocated address is distinct from every earlier one.
pub proof fn lemma_allocated_addresses_distinct(c1: u64, c2: u64)
    ensures
        c1 != c2 ==> user_address_bytes(c1) != user_address_bytes(c2),
        c1 != c2 ==> sc_address_bytes(c1) != sc_address_bytes(c2),
        user_address_bytes(c1) != sc_address_bytes(c2),
{
    assert(user_address_bytes(c1)[0] == 0x75);
    assert(sc_address_bytes(c2)[0] == 0);
    if user_address_bytes(c1) == user_address_bytes(c2) {
        assert forall|i: int| 0 <= i < 8 implies counter_bytes(c1)[i] == counter_bytes(c2)[i] by {
            assert(user_address_bytes(c1)[1 + i] == counter_bytes(c1)[i]);
            assert(user_address_bytes(c2)[1 + i] == counter_bytes(c2)[i]);
        }
        assert(counter_bytes(c1) =~= counter_bytes(c2));
        lemma_counter_bytes_injective(c1, c2);
    }
    if sc_address_bytes(c1) == sc_address_bytes(c2) {
        assert forall|i: int| 0 <= i < 8 implies counter_bytes(c1)[i] == counter_bytes(c2)[i] by {
            assert(sc_address_bytes(c1)[8 + i] == counter_bytes(c1)[i]);
            assert(sc_address_bytes(c2)[8 + i] == counter_bytes(c2)[i]);
        }
        assert(counter_bytes(c1) =~= counter_bytes(c2));
        lemma_counter_bytes_injective(c1, c2);
    }
}

impl AddressFactory {
    /// How many addresses were allocated so far.
    pub closed spec fn spec_count(&self) -> u64 {
        self.count
    }

    /// A factory that has allocated nothing yet.
    pub fn new() -> (r: AddressFactory)
        ensures
            r.spec_count() == 0,
    {
        AddressFactory { count: 0 }
    }

    /// A fresh user address: the one determined by the next counter value.
    #[verifier::loop_isolation(false)]
    pub fn new_address(&mut self) -> (r: Address)
        requires
            old(self).spec_count() < u64::MAX,
        ensures
            final(self).spec_count() == old(self).spec_count() + 1,
            r@ == user_address_bytes(final(self).spec_count()),
            r@.len() == ADDRESS_LEN,
            r@[0] != 0,
    {
        self.count = self.count + 1;
        let mut bytes: Vec<u8> = Vec::new();
        bytes.push(0x75u8);
        let mut i: usize = 0;
        while i < 8
            invariant
                i <= 8,
                bytes@ =~= seq![0x75u8] + counter_bytes(self.count).take(i as int),
            decreases 8 - i,
        {
            bytes.push((self.count >> ((i as u64) * 8)) as u8);
            i = i + 1;
        }
        while bytes.len() < ADDRESS_LEN
            invariant
                9 <= bytes@.len() <= ADDRESS_LEN,
                bytes@ =~= (seq![0x75u8] + counter_bytes(self.count)) + Seq::new(
                    (bytes@.len() - 9) as nat,
                    |k: int| 0x5fu8,
                ),
            decreases ADDRESS_LEN - bytes@.len(),
        {
            bytes.push(0x5fu8);
        }
        proof {
            assert(bytes@ =~= user_address_bytes(self.count));
        }
        Address::new(bytes)
    }

    /// A fresh contract address: the one determined by the next counter
    /// value, with the leading zero run that marks contract accounts.
    #[verifier::loop_isolation(false)]
    pub fn new_sc_address(&mut self) -> (r: Address)
        requires
            old(self).spec_count() < u64::MAX,
        ensures
            final(self).spec_count() == old(self).spec_count() + 1,
            r@ == sc_address_bytes(final(self).spec_count()),
            r@.len() == ADDRESS_LEN,
            r@[0] == 0,
    {
        self.count = self.count + 1;
        let mut bytes: Vec<u8> = Vec::new();
        let mut z: usize = 0;
        while z < 8
            invariant
                z <= 8,
                bytes@ =~= Seq::new(z as nat, |k: int| 0u8),
            decreases 8 - z,
        {
            bytes.push(0u8);
            z = z + 1;
        }
        let mut i: usize = 0;
        while i < 8
            invariant
                i <= 8,
                bytes@ =~= Seq::new(8, |k: int| 0u8) + counter_bytes(self.count).take(i as int),
            decreases 8 - i,
        {
            bytes.push((self.count >> ((i as u64) * 8)) as u8);
            i = i + 1;
        }
        while bytes.len() < ADDRESS_LEN
            invariant
                16 <= bytes@.len() <= ADDRESS_LEN,
                bytes@ =~= (Seq::new(8, |k: int| 0u8) + counter_bytes(self.count)) + Seq::new(
                    (bytes@.len() - 16) as nat,
                    |k: int| 0x5fu8,
                ),
            decreases ADDRESS_LEN - bytes@.len(),
        {
            bytes.push(0x5fu8);
        }
        proof {
            assert(bytes@ =~= sc_address_bytes(self.count));
        }
        Address::new(bytes)
    }
}

} // verus!
