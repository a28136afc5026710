//! Token-payment values and the send-result types contract endpoints hand
//! back to describe an outgoing transfer.

use vstd::prelude::*;

use crate::address::Address;
use crate::bignat::BigNat;
use crate::tx::PaymentV;

verus! {

/// One token payment: which token class, which instance, and how much.
pub struct DctTokenPayment {
    pub token_identifier: Vec<u8>,
    pub token_nonce: u64,
    pub amount: BigNat,
}

impl View for DctTokenPayment {
    type V = PaymentV;

    open spec fn view(&self) -> PaymentV {
        PaymentV {
            token_identifier: self.token_identifier@,
            nonce: self.token_nonce,
            value: self.amount@,
        }
    }
}

impl DctTokenPayment {
    /// A payment of `amount` of (identifier, nonce).
    pub fn new(token_identifier: Vec<u8>, token_nonce: u64, amount: BigNat) -> (r: DctTokenPayment)
        ensures
            r@.token_identifier == token_identifier@,
            r@.nonce == token_nonce,
            r@.value == amount@,
    {
        DctTokenPayment { token_identifier, token_nonce, amount }
    }
}

/// Thin wrapper around [`DctTokenPayment`] for call boundaries where the
/// payment travels as three separate values (identifier, nonce, amount)
/// instead of one.
pub struct DctTokenPaymentMultiArg {
    obj: DctTokenPayment,
}

impl View for DctTokenPaymentMultiArg {
    type V = PaymentV;

    closed spec fn view(&self) -> PaymentV {
        self.obj@
    }
}

impl DctTokenPaymentMultiArg {
    /// Wraps a payment.
    pub fn from_payment(obj: DctTokenPayment) -> (r: DctTokenPaymentMultiArg)
        ensures
            r@ == obj@,
    {
        DctTokenPaymentMultiArg { obj }
    }

    /// The wrapped payment.
    pub fn into_dct_token_payment(self) -> (r: DctTokenPayment)
        ensures
            r@ == self@,
    {
        self.obj
    }
}

/// The description of an outgoing single-token transfer a contract endpoint
/// finishes with: destination, token, amount and accompanying data.
pub struct SendDct {
    pub to: Address,
    pub token_identifier: Vec<u8>,
    pub amount: BigNat,
    pub data: Vec<u8>,
}

impl SendDct {
    /// A transfer of `amount` of the token to `to`, carrying `data`.
    pub fn new(to: Address, token_identifier: Vec<u8>, amount: BigNat, data: Vec<u8>) -> (r:
        SendDct)
        ensures
            r.to@ == to@,
            r.token_identifier@ == token_identifier@,
            r.amount@ == amount@,
            r.data@ == data@,
    {
        SendDct { to, token_identifier, amount, data }
    }
}

/// The description of an outgoing native-coin transfer a contract endpoint
/// finishes with: destination, amount and accompanying data.
pub struct SendMoax {
    pub to: Address,
    pub amount: BigNat,
    pub data: Vec<u8>,
}

impl SendMoax {
    /// A transfer of `amount` native coins to `to`, carrying `data`.
    pub fn new(to: Address, amount: BigNat, data: Vec<u8>) -> (r: SendMoax)
        ensures
            r.to@ == to@,
            r.amount@ == amount@,
            r.data@ == data@,
    {
        SendMoax { to, amount, data }
    }
}

} // verus!
