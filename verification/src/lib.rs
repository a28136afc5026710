//! A transactional world-state ledger and contract-execution harness for
//! simulating a blockchain's account and token state in tests: native-coin and
//! multi-instance token balances, atomic transfers, copy-on-write transaction
//! scoping with explicit commit/revert, and conversion of abnormal termination
//! into structured results.

pub mod address;
pub mod bignat;
pub mod tokens;
pub mod world;
pub mod tx;
pub mod txcache;
pub mod denali;
pub mod harness;
pub mod laws;
pub mod payment;

pub use address::Address;
pub use address::AddressFactory;
pub use bignat::BigNat;
pub use denali::DenaliGenerator;
pub use denali::ScCallDenali;
pub use denali::ScQueryDenali;
pub use denali::TxExpectDenali;
pub use harness::BlockchainStateWrapper;
pub use harness::ContractObjWrapper;
pub use harness::StateChange;
pub use harness::TxContext;
pub use payment::DctTokenPayment;
pub use payment::DctTokenPaymentMultiArg;
pub use payment::SendDct;
pub use payment::SendMoax;
pub use tokens::AccountDct;
pub use tokens::DctData;
pub use tokens::DctInstanceMetadata;
pub use tx::TxInputDCT;
pub use tx::TxPanic;
pub use tx::TxResult;
pub use txcache::TxCache;
pub use world::AccountData;
pub use world::BlockchainMock;
