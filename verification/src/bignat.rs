//! Arbitrary-precision non-negative integers for account and token balances.
//!
//! A balance is a little-endian vector of base-2^32 digits; its mathematical
//! value is given by [`digits_val`]. The arithmetic itself is delegated to the
//! `num_bigint` crate through trusted wrappers whose contracts speak of the
//! digit values alone.

use vstd::prelude::*;

verus! {

/// Numeric value of a little-endian sequence of base-2^32 digits.
pub open spec fn digits_val(s: Seq<u32>) -> nat
    decreases s.len(),
{
    if s.len() == 0 {
        0
    } else {
        (s[0] + 0x1_0000_0000 * digits_val(s.drop_first())) as nat
    }
}

/// A digit sequence is in normal form when it has no most-significant zero
/// digit, so every value has exactly one representation.
pub open spec fn digits_normal(s: Seq<u32>) -> bool {
    s.len() == 0 || s[s.len() - 1] != 0
}

/// An arbitrary-precision non-negative integer.
///
/// Balances must never overflow nor saturate, so they are kept in full
/// precision. The view of a `BigNat` is its numeric value as a `nat`.
#[derive(Debug)]
pub struct BigNat {
    digits: Vec<u32>,
}

impl View for BigNat {
    type V = nat;

    closed spec fn view(&self) -> nat {
        digits_val(self.digits@)
    }
}

/// Relies on `num_bigint::BigUint::new` (base-2^32 little-endian digits in),
/// `core::ops::Add` for `BigUint` (numeric sum), and
/// `BigUint::to_u32_digits` (normalized base-2^32 little-endian digits out).
#[verifier::external_body]
fn digits_add(a: &Vec<u32>, b: &Vec<u32>) -> (r: Vec<u32>)
    ensures
        digits_val(r@) == digits_val(a@) + digits_val(b@),
        digits_normal(r@),
{
    let sum = num_bigint::BigUint::new(a.clone()) + num_bigint::BigUint::new(b.clone());
    sum.to_u32_digits()
}

/// Relies on `core::ops::Sub` for `num_bigint::BigUint`, which computes the
/// numeric difference and panics on underflow; underflow is excluded here.
#[verifier::external_body]
fn digits_sub(a: &Vec<u32>, b: &Vec<u32>) -> (r: Vec<u32>)
    requires
        digits_val(b@) <= digits_val(a@),
    ensures
        digits_val(r@) == digits_val(a@) - digits_val(b@),
        digits_normal(r@),
{
    let diff = num_bigint::BigUint::new(a.clone()) - num_bigint::BigUint::new(b.clone());
    diff.to_u32_digits()
}

/// Relies on `Ord` for `num_bigint::BigUint`, which orders by numeric value.
#[verifier::external_body]
fn digits_lt(a: &Vec<u32>, b: &Vec<u32>) -> (r: bool)
    ensures
        r == (digits_val(a@) < digits_val(b@)),
{
    num_bigint::BigUint::new(a.clone()) < num_bigint::BigUint::new(b.clone())
}

/// Relies on `From<u64>` for `num_bigint::BigUint` and
/// `BigUint::to_u32_digits`.
#[verifier::external_body]
fn digits_from_u64(v: u64) -> (r: Vec<u32>)
    ensures
        digits_val(r@) == v,
        digits_normal(r@),
{
    num_bigint::BigUint::from(v).to_u32_digits()
}

/// Relies on `core::ops::Mul` for `num_bigint::BigUint` (numeric product) and
/// `From<u64>`.
#[verifier::external_body]
fn digits_mul_u64(a: u64, b: u64) -> (r: Vec<u32>)
    ensures
        digits_val(r@) == a * b,
        digits_normal(r@),
{
    let prod = num_bigint::BigUint::from(a) * num_bigint::BigUint::from(b);
    prod.to_u32_digits()
}

impl BigNat {
    /// Normal form of the digit vector, established by every constructor.
    pub closed spec fn wf(&self) -> bool {
        digits_normal(self.digits@)
    }

    /// The value zero.
    pub fn zero() -> (r: BigNat)
        ensures
            r@ == 0,
            r.wf(),
    {
        let digits: Vec<u32> = Vec::new();
        BigNat { digits }
    }

    /// The value of a machine integer.
    pub fn from_u64(v: u64) -> (r: BigNat)
        ensures
            r@ == v,
            r.wf(),
    {
        BigNat { digits: digits_from_u64(v) }
    }

    /// The product of two machine integers, e.g. a gas limit times a gas
    /// price, in full precision.
    pub fn from_u64_product(a: u64, b: u64) -> (r: BigNat)
        ensures
            r@ == a * b,
            r.wf(),
    {
        BigNat { digits: digits_mul_u64(a, b) }
    }

    /// Sum of two values. Cannot overflow: the result is in full precision.
    pub fn add(&self, other: &BigNat) -> (r: BigNat)
        ensures
            r@ == self@ + other@,
            r.wf(),
    {
        BigNat { digits: digits_add(&self.digits, &other.digits) }
    }

    /// Difference of two values; the caller must have checked affordability.
    pub fn sub(&self, other: &BigNat) -> (r: BigNat)
        requires
            other@ <= self@,
        ensures
            r@ == self@ - other@,
            r.wf(),
    {
        BigNat { digits: digits_sub(&self.digits, &other.digits) }
    }

    /// Numeric strict order.
    pub fn lt(&self, other: &BigNat) -> (r: bool)
        ensures
            r == (self@ < other@),
    {
        digits_lt(&self.digits, &other.digits)
    }

    /// Numeric equality, from the order in both directions.
    pub fn eq_value(&self, other: &BigNat) -> (r: bool)
        ensures
            r == (self@ == other@),
    {
        !self.lt(other) && !other.lt(self)
    }

    /// Whether the value is zero.
    pub fn is_zero(&self) -> (r: bool)
        ensures
            r == (self@ == 0),
    {
        let z = BigNat::zero();
        self.eq_value(&z)
    }

    /// The base-2^32 little-endian digits of the value.
    pub fn digits(&self) -> (r: &Vec<u32>)
        ensures
            digits_val(r@) == self@,
    {
        &self.digits
    }
}

impl Clone for BigNat {
    /// A clone has the same numeric value.
    fn clone(&self) -> (r: Self)
        ensures
            r@ == self@,
            self.wf() ==> r.wf(),
    {
        BigNat { digits: self.digits.clone() }
    }
}

} // verus!
