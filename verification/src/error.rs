//! Why the ledger turns a call down.

use vstd::prelude::*;

verus! {

/// The reason a call was rejected. A rejected call changes nothing.
#[derive(Debug, Clone, Copy, PartialEq, Eq, Structural)]
pub enum TokenError {
    /// The account that is to pay holds less than the amount.
    InsufficientBalance,
    /// The spender has been approved for less than the amount.
    InsufficientAllowance,
    /// An address that the call names is the empty string.
    InvalidAddress,
}

} // verus!
