//! An in-memory ledger for one fungible token: balances, direct transfers and
//! transfers that a holder has delegated to a spender through an allowance.
//!
//! The executable ledger is [`ERC20Token`]. Its contracts are stated over the
//! mathematical [`Ledger`](ledger::Ledger) that it stands for; what holds of
//! a ledger after any number of calls is proved in [`history`].

mod approvals;
pub mod error;
pub mod history;
mod holdings;
pub mod ledger;
pub mod tally;
pub mod token;

pub use error::TokenError;
pub use token::ERC20Token;
