//! The scenario generator: a passive observer that records account states
//! and call expectations as structured steps, for regression-test replay.
//!
//! The generator has no influence on ledger correctness. It captures account
//! records and call descriptions losslessly as values; rendering them in the
//! external text grammar is left to the embedding program.

use vstd::prelude::*;

use crate::address::Address;
use crate::bignat::BigNat;
use crate::tx::PaymentV;
use crate::tx::TxInputDCT;
use crate::tx::payments_view;
use crate::world::AccountData;
use crate::world::AccountV;
use crate::world::BlockInfo;
use crate::world::BlockInfoV;
use crate::tokens::opt_bytes_view;

verus! {

/// View of a recorded contract call.
#[verifier::ext_equal]
pub ghost struct ScCallV {
    pub from: Seq<u8>,
    pub to: Seq<u8>,
    pub moax_value: nat,
    pub dct: Seq<PaymentV>,
    pub function: Seq<char>,
    pub arguments: Seq<Seq<u8>>,
    pub gas_limit: u64,
    pub gas_price: u64,
}

/// A contract call to be recorded as a scenario step: caller, destination,
/// payments, function name, pre-encoded arguments and gas terms.
pub struct ScCallDenali {
    pub from: Address,
    pub to: Address,
    pub moax_value: BigNat,
    pub dct: Vec<TxInputDCT>,
    pub function: String,
    pub arguments: Vec<Vec<u8>>,
    pub gas_limit: u64,
    pub gas_price: u64,
}

impl View for ScCallDenali {
    type V = ScCallV;

    open spec fn view(&self) -> ScCallV {
        ScCallV {
            from: self.from@,
            to: self.to@,
            moax_value: self.moax_value@,
            dct: payments_view(self.dct@),
            function: self.function@,
            arguments: self.arguments@.map_values(|a: Vec<u8>| a@),
            gas_limit: self.gas_limit,
            gas_price: self.gas_price,
        }
    }
}

impl ScCallDenali {
    /// A call from `from` to `to` of the named function, with no payment, no
    /// arguments, unlimited gas and zero gas price.
    pub fn new(from: &Address, to: &Address, function: &str) -> (r: ScCallDenali)
        ensures
            r@.from == from@,
            r@.to == to@,
            r@.moax_value == 0,
            r@.dct.len() == 0,
            r@.function == function@,
            r@.arguments.len() == 0,
            r@.gas_limit == u64::MAX,
            r@.gas_price == 0,
    {
        let r = ScCallDenali {
            from: from.clone(),
            to: to.clone(),
            moax_value: BigNat::zero(),
            dct: Vec::new(),
            function: function.to_owned(),
            arguments: Vec::new(),
            gas_limit: u64::MAX,
            gas_price: 0,
        };
        proof {
            assert(r@.dct =~= Seq::<PaymentV>::empty());
            assert(r@.arguments =~= Seq::<Seq<u8>>::empty());
        }
        r
    }

    /// Sets the native-coin payment of the call.
    pub fn add_moax_value(&mut self, moax_value: &BigNat)
        ensures
            final(self)@ == (ScCallV { moax_value: moax_value@, ..old(self)@ }),
    {
        self.moax_value = moax_value.clone();
        proof {
            assert(final(self)@ =~= (ScCallV { moax_value: moax_value@, ..old(self)@ }));
        }
    }

    /// Appends one token payment to the call.
    pub fn add_dct_transfer(&mut self, token_id: &Vec<u8>, nonce: u64, dct_value: &BigNat)
        ensures
            final(self)@ == (ScCallV {
                dct: old(self)@.dct.push(
                    PaymentV { token_identifier: token_id@, nonce, value: dct_value@ },
                ),
                ..old(self)@
            }),
    {
        self.dct.push(TxInputDCT {
            token_identifier: token_id.clone(),
            nonce,
            value: dct_value.clone(),
        });
        proof {
            assert(payments_view(self.dct@) =~= old(self)@.dct.push(
                PaymentV { token_identifier: token_id@, nonce, value: dct_value@ },
            ));
            assert(final(self)@ =~= (ScCallV {
                dct: old(self)@.dct.push(
                    PaymentV { token_identifier: token_id@, nonce, value: dct_value@ },
                ),
                ..old(self)@
            }));
        }
    }

    /// Appends one pre-encoded argument to the call.
    pub fn add_argument(&mut self, arg_raw: Vec<u8>)
        ensures
            final(self)@ == (ScCallV { arguments: old(self)@.arguments.push(arg_raw@), ..old(self)@ }),
    {
        self.arguments.push(arg_raw);
        proof {
            assert(final(self)@ =~= (ScCallV {
                arguments: old(self)@.arguments.push(final(self).arguments@.last()@),
                ..old(self)@
            }));
        }
    }

    /// Sets the gas limit of the call.
    pub fn set_gas_limit(&mut self, gas_limit: u64)
        ensures
            final(self)@ == (ScCallV { gas_limit, ..old(self)@ }),
    {
        self.gas_limit = gas_limit;
        proof {
            assert(final(self)@ =~= (ScCallV { gas_limit, ..old(self)@ }));
        }
    }

    /// Sets the gas price of the call.
    pub fn set_gas_price(&mut self, gas_price: u64)
        ensures
            final(self)@ == (ScCallV { gas_price, ..old(self)@ }),
    {
        self.gas_price = gas_price;
        proof {
            assert(final(self)@ =~= (ScCallV { gas_price, ..old(self)@ }));
        }
    }
}

/// View of a recorded read-only query.
#[verifier::ext_equal]
pub ghost struct ScQueryV {
    pub to: Seq<u8>,
    pub function: Seq<char>,
    pub arguments: Seq<Seq<u8>>,
}

/// A read-only query to be recorded as a scenario step.
pub struct ScQueryDenali {
    pub to: Address,
    pub function: String,
    pub arguments: Vec<Vec<u8>>,
}

impl View for ScQueryDenali {
    type V = ScQueryV;

    open spec fn view(&self) -> ScQueryV {
        ScQueryV {
            to: self.to@,
            function: self.function@,
            arguments: self.arguments@.map_values(|a: Vec<u8>| a@),
        }
    }
}

impl ScQueryDenali {
    /// A query of the named function with no arguments.
    pub fn new(to: &Address, function: &str) -> (r: ScQueryDenali)
        ensures
            r@.to == to@,
            r@.function == function@,
            r@.arguments.len() == 0,
    {
        let r = ScQueryDenali {
            to: to.clone(),
            function: function.to_owned(),
            arguments: Vec::new(),
        };
        proof {
            assert(r@.arguments =~= Seq::<Seq<u8>>::empty());
        }
        r
    }

    /// Appends one pre-encoded argument to the query.
    pub fn add_argument(&mut self, arg_raw: Vec<u8>)
        ensures
            final(self)@ == (ScQueryV {
                arguments: old(self)@.arguments.push(arg_raw@),
                ..old(self)@
            }),
    {
        self.arguments.push(arg_raw);
        proof {
            assert(final(self)@ =~= (ScQueryV {
                arguments: old(self)@.arguments.push(final(self).arguments@.last()@),
                ..old(self)@
            }));
        }
    }
}

/// View of a recorded expectation.
#[verifier::ext_equal]
pub ghost struct TxExpectV {
    pub out: Seq<Seq<u8>>,
    pub status: u64,
    pub message: Seq<char>,
}

/// The expected outcome of a recorded call: output values, status code and
/// message.
pub struct TxExpectDenali {
    pub out: Vec<Vec<u8>>,
    pub status: u64,
    pub message: String,
}

impl View for TxExpectDenali {
    type V = TxExpectV;

    open spec fn view(&self) -> TxExpectV {
        TxExpectV {
            out: self.out@.map_values(|o: Vec<u8>| o@),
            status: self.status,
            message: self.message@,
        }
    }
}

impl TxExpectDenali {
    /// An expectation of the given status, with no outputs and no message.
    pub fn new(status: u64) -> (r: TxExpectDenali)
        ensures
            r@.status == status,
            r@.out.len() == 0,
            r@.message.len() == 0,
    {
        let r = TxExpectDenali { out: Vec::new(), status, message: String::new() };
        proof {
            assert(r@.out =~= Seq::<Seq<u8>>::empty());
        }
        r
    }

    /// Appends one pre-encoded expected output value.
    pub fn add_out_value(&mut self, out_raw: Vec<u8>)
        ensures
            final(self)@ == (TxExpectV { out: old(self)@.out.push(out_raw@), ..old(self)@ }),
    {
        self.out.push(out_raw);
        proof {
            assert(final(self)@ =~= (TxExpectV {
                out: old(self)@.out.push(final(self).out@.last()@),
                ..old(self)@
            }));
        }
    }

    /// Sets the expected message.
    pub fn set_message(&mut self, msg: &str)
        ensures
            final(self)@ == (TxExpectV { message: msg@, ..old(self)@ }),
    {
        self.message = msg.to_owned();
        proof {
            assert(final(self)@ =~= (TxExpectV { message: msg@, ..old(self)@ }));
        }
    }
}

/// View of an optional expectation.
pub open spec fn opt_expect_view(o: Option<TxExpectDenali>) -> Option<TxExpectV> {
    match o {
        Some(e) => Some(e@),
        None => None,
    }
}

/// View of one recorded scenario step.
#[verifier::ext_equal]
pub ghost enum StepV {
    SetAccount { account: AccountV, sc_path: Option<Seq<u8>> },
    CheckAccount { account: AccountV },
    ScCall { call: ScCallV, expect: Option<TxExpectV> },
    ScQuery { query: ScQueryV, expect: Option<TxExpectV> },
    SetBlockInfo { current: BlockInfoV, previous: BlockInfoV },
}

/// One recorded scenario step, holding a full copy of what it observed.
pub enum Step {
    SetAccount { account: AccountData, sc_path: Option<Vec<u8>> },
    CheckAccount { account: AccountData },
    ScCall { call: ScCallDenali, expect: Option<TxExpectDenali> },
    ScQuery { query: ScQueryDenali, expect: Option<TxExpectDenali> },
    SetBlockInfo { current: BlockInfo, previous: BlockInfo },
}

impl View for Step {
    type V = StepV;

    open spec fn view(&self) -> StepV {
        match self {
            Step::SetAccount { account, sc_path } => StepV::SetAccount {
                account: account@,
                sc_path: opt_bytes_view(*sc_path),
            },
            Step::CheckAccount { account } => StepV::CheckAccount { account: account@ },
            Step::ScCall { call, expect } => StepV::ScCall {
                call: call@,
                expect: opt_expect_view(*expect),
            },
            Step::ScQuery { query, expect } => StepV::ScQuery {
                query: query@,
                expect: opt_expect_view(*expect),
            },
            Step::SetBlockInfo { current, previous } => StepV::SetBlockInfo {
                current: current@,
                previous: previous@,
            },
        }
    }
}

/// The generator: an append-only list of recorded steps. Its view is the
/// sequence of step views, in recording order, so the produced scenario is
/// deterministic for a given run.
pub struct DenaliGenerator {
    steps: Vec<Step>,
}

impl View for DenaliGenerator {
    type V = Seq<StepV>;

    closed spec fn view(&self) -> Seq<StepV> {
        self.steps@.map_values(|s: Step| s@)
    }
}

impl DenaliGenerator {
    /// A generator with nothing recorded.
    pub fn new() -> (r: DenaliGenerator)
        ensures
            r@ == Seq::<StepV>::empty(),
    {
        let r = DenaliGenerator { steps: Vec::new() };
        proof {
            assert(r@ =~= Seq::<StepV>::empty());
        }
        r
    }

    /// Records the full state of an account.
    pub fn set_account(&mut self, account: &AccountData, sc_path: Option<Vec<u8>>)
        ensures
            final(self)@ == old(self)@.push(
                StepV::SetAccount { account: account@, sc_path: opt_bytes_view(sc_path) },
            ),
    {
        let step = Step::SetAccount { account: account.clone(), sc_path };
        self.steps.push(step);
        proof {
            assert(final(self)@ =~= old(self)@.push(final(self).steps@.last()@));
        }
    }

    /// Records a check of the full state of an account.
    pub fn check_account(&mut self, account: &AccountData)
        ensures
            final(self)@ == old(self)@.push(StepV::CheckAccount { account: account@ }),
    {
        let step = Step::CheckAccount { account: account.clone() };
        self.steps.push(step);
        proof {
            assert(final(self)@ =~= old(self)@.push(final(self).steps@.last()@));
        }
    }

    /// Records a contract call and its expectation.
    pub fn create_tx(&mut self, sc_call: ScCallDenali, opt_expect: Option<TxExpectDenali>)
        ensures
            final(self)@ == old(self)@.push(
                StepV::ScCall { call: sc_call@, expect: opt_expect_view(opt_expect) },
            ),
    {
        proof {
            assert(opt_expect_view(opt_expect) == match opt_expect {
                Some(e) => Some(e@),
                None => None,
            });
        }
        let step = Step::ScCall { call: sc_call, expect: opt_expect };
        self.steps.push(step);
        proof {
            assert(final(self)@ =~= old(self)@.push(final(self).steps@.last()@));
        }
    }

    /// Records a read-only query and its expectation.
    pub fn create_query(&mut self, sc_query: ScQueryDenali, opt_expect: Option<TxExpectDenali>)
        ensures
            final(self)@ == old(self)@.push(
                StepV::ScQuery { query: sc_query@, expect: opt_expect_view(opt_expect) },
            ),
    {
        let step = Step::ScQuery { query: sc_query, expect: opt_expect };
        self.steps.push(step);
        proof {
            assert(final(self)@ =~= old(self)@.push(final(self).steps@.last()@));
        }
    }

    /// Records the current and previous block metadata.
    pub fn set_block_info(&mut self, current: &BlockInfo, previous: &BlockInfo)
        ensures
            final(self)@ == old(self)@.push(
                StepV::SetBlockInfo { current: current@, previous: previous@ },
            ),
    {
        let step = Step::SetBlockInfo { current: current.clone(), previous: previous.clone() };
        self.steps.push(step);
        proof {
            assert(final(self)@ =~= old(self)@.push(final(self).steps@.last()@));
        }
    }

    /// The recorded steps, in order, for rendering.
    pub fn steps(&self) -> (r: &Vec<Step>)
        ensures
            r@.map_values(|s: Step| s@) == self@,
    {
        &self.steps
    }
}

} // verus!
