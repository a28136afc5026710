//! Transaction inputs, typed failures and transaction results.

use vstd::prelude::*;

use crate::address::Address;
use crate::bignat::BigNat;

verus! {

/// Status code of every affordability failure.
pub const INSUFFICIENT_FUNDS_STATUS: u64 = 10;

/// Message of a failed native-coin debit.
pub open spec fn native_insufficient_msg() -> Seq<char> {
    "failed transfer (insufficient funds)"@
}

/// Message of a failed token debit.
pub open spec fn token_insufficient_msg() -> Seq<char> {
    "insufficient funds"@
}

/// Message of a failed gas prepayment.
pub open spec fn gas_insufficient_msg() -> Seq<char> {
    "Not enough balance to pay gas upfront"@
}

/// View of a typed abnormal termination.
#[verifier::ext_equal]
pub ghost struct TxPanicV {
    pub status: u64,
    pub message: Seq<char>,
}

/// The failure a native-coin debit raises when the balance cannot cover it.
pub open spec fn native_insufficient_panic() -> TxPanicV {
    TxPanicV { status: INSUFFICIENT_FUNDS_STATUS, message: native_insufficient_msg() }
}

/// The failure a token debit raises when the instance cannot cover it.
pub open spec fn token_insufficient_panic() -> TxPanicV {
    TxPanicV { status: INSUFFICIENT_FUNDS_STATUS, message: token_insufficient_msg() }
}

/// The failure a gas prepayment raises when the balance cannot cover it.
pub open spec fn gas_insufficient_panic() -> TxPanicV {
    TxPanicV { status: INSUFFICIENT_FUNDS_STATUS, message: gas_insufficient_msg() }
}

/// A typed abnormal termination: raised at the point of violation, it unwinds
/// the whole transaction and is caught once, at the dispatch boundary.
#[derive(Debug)]
pub struct TxPanic {
    pub status: u64,
    pub message: String,
}

impl View for TxPanic {
    type V = TxPanicV;

    open spec fn view(&self) -> TxPanicV {
        TxPanicV { status: self.status, message: self.message@ }
    }
}

impl TxPanic {
    /// The failure of a native-coin debit that the balance cannot cover.
    pub fn native_insufficient_funds() -> (r: TxPanic)
        ensures
            r@ == native_insufficient_panic(),
    {
        TxPanic {
            status: INSUFFICIENT_FUNDS_STATUS,
            message: "failed transfer (insufficient funds)".to_owned(),
        }
    }

    /// The failure of a token debit that the instance cannot cover.
    pub fn token_insufficient_funds() -> (r: TxPanic)
        ensures
            r@ == token_insufficient_panic(),
    {
        TxPanic { status: INSUFFICIENT_FUNDS_STATUS, message: "insufficient funds".to_owned() }
    }

    /// The failure of a gas prepayment the balance cannot cover.
    pub fn gas_insufficient_funds() -> (r: TxPanic)
        ensures
            r@ == gas_insufficient_panic(),
    {
        TxPanic {
            status: INSUFFICIENT_FUNDS_STATUS,
            message: "Not enough balance to pay gas upfront".to_owned(),
        }
    }

    /// A contract-defined failure with its own status and message.
    pub fn new(status: u64, message: String) -> (r: TxPanic)
        ensures
            r@.status == status,
            r@.message == message@,
    {
        TxPanic { status, message }
    }
}

impl Clone for TxPanic {
    /// A clone has the same view.
    fn clone(&self) -> (r: Self)
        ensures
            r@ == self@,
    {
        let r = TxPanic { status: self.status, message: self.message.clone() };
        proof {
            assert(r@ =~= self@);
        }
        r
    }
}

/// View of a transaction result.
#[verifier::ext_equal]
pub ghost struct TxResultV {
    pub status: u64,
    pub message: Seq<char>,
}

/// The outcome of one top-level execution: empty success, or a structured
/// failure carrying a status code and a message. Created once at the end of
/// dispatch and never mutated.
#[derive(Debug)]
pub struct TxResult {
    pub status: u64,
    pub message: String,
}

impl View for TxResult {
    type V = TxResultV;

    open spec fn view(&self) -> TxResultV {
        TxResultV { status: self.status, message: self.message@ }
    }
}

/// The view of the empty (status-zero) result.
pub open spec fn tx_result_success() -> TxResultV {
    TxResultV { status: 0, message: Seq::empty() }
}

/// The result view carrying a caught abnormal termination.
pub open spec fn tx_result_of_panic(p: TxPanicV) -> TxResultV {
    TxResultV { status: p.status, message: p.message }
}

impl TxResult {
    /// The empty success result.
    pub fn empty() -> (r: TxResult)
        ensures
            r@ == tx_result_success(),
    {
        let r = TxResult { status: 0, message: String::new() };
        proof {
            assert(r@ =~= tx_result_success());
        }
        r
    }

    /// The result of catching an abnormal termination at the dispatch
    /// boundary.
    pub fn from_panic(p: TxPanic) -> (r: TxResult)
        ensures
            r@ == tx_result_of_panic(p@),
    {
        let r = TxResult { status: p.status, message: p.message };
        proof {
            assert(r@ =~= tx_result_of_panic(p@));
        }
        r
    }

    /// Whether the result is the empty success.
    pub fn is_success(&self) -> (r: bool)
        ensures
            r == (self@.status == 0),
    {
        self.status == 0
    }
}

/// View of one token payment of a transaction input.
#[verifier::ext_equal]
pub ghost struct PaymentV {
    pub token_identifier: Seq<u8>,
    pub nonce: u64,
    pub value: nat,
}

/// One token payment accompanying a call: which instance, and how much.
pub struct TxInputDCT {
    pub token_identifier: Vec<u8>,
    pub nonce: u64,
    pub value: BigNat,
}

impl View for TxInputDCT {
    type V = PaymentV;

    open spec fn view(&self) -> PaymentV {
        PaymentV {
            token_identifier: self.token_identifier@,
            nonce: self.nonce,
            value: self.value@,
        }
    }
}

impl Clone for TxInputDCT {
    /// A clone has the same view.
    fn clone(&self) -> (r: Self)
        ensures
            r@ == self@,
    {
        let r = TxInputDCT {
            token_identifier: self.token_identifier.clone(),
            nonce: self.nonce,
            value: self.value.clone(),
        };
        proof {
            assert(r@ =~= self@);
        }
        r
    }
}

/// The views of a list of token payments.
pub open spec fn payments_view(s: Seq<TxInputDCT>) -> Seq<PaymentV> {
    s.map_values(|p: TxInputDCT| p@)
}

/// View of a transaction input.
#[verifier::ext_equal]
pub ghost struct TxInputV {
    pub from: Seq<u8>,
    pub to: Seq<u8>,
    pub moax_value: nat,
    pub dct_values: Seq<PaymentV>,
    pub func_name: Seq<u8>,
    pub args: Seq<Seq<u8>>,
    pub gas_limit: u64,
    pub gas_price: u64,
}

/// The resolved input of one call frame: caller, callee, payments, function
/// name, pre-encoded arguments and gas terms.
pub struct TxInput {
    pub from: Address,
    pub to: Address,
    pub moax_value: BigNat,
    pub dct_values: Vec<TxInputDCT>,
    pub func_name: Vec<u8>,
    pub args: Vec<Vec<u8>>,
    pub gas_limit: u64,
    pub gas_price: u64,
}

impl View for TxInput {
    type V = TxInputV;

    open spec fn view(&self) -> TxInputV {
        TxInputV {
            from: self.from@,
            to: self.to@,
            moax_value: self.moax_value@,
            dct_values: payments_view(self.dct_values@),
            func_name: self.func_name@,
            args: self.args@.map_values(|a: Vec<u8>| a@),
            gas_limit: self.gas_limit,
            gas_price: self.gas_price,
        }
    }
}

} // verus!
