//! Balance accounting for a payroll ledger: checked arithmetic over
//! collections of holdings keyed by denomination or issuer address, and a
//! balance that holds either native coins or a single contract-issued token.
pub mod balance;
pub mod error;
pub mod ledger;

pub use balance::{Balance, Cw20ReceiveMsg, WrappedBalance};
pub use error::{GenericError, OverflowOperation};
pub use ledger::{BalancesOperations, Coin, Cw20CoinVerified, FindAndMutate, LedgerEntry};
