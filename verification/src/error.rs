//! Error taxonomy of the ledger. Every operation either completes fully or
//! returns one of these kinds with no state change.

use vstd::prelude::*;

verus! {

/// The error kinds an operation can return.
#[derive(Debug, Clone, Copy, PartialEq, Eq, Structural)]
pub enum ContractError {
    /// A deposit amount of zero (or otherwise malformed) was supplied.
    InvalidAmount,
    /// A checked addition on a balance or counter overflowed.
    ArithmeticOverflow,
    /// A checked subtraction on a balance or counter would go negative.
    ArithmeticUnderflow,
    /// A withdrawal was requested against a key with no recorded entry.
    NoDepositFound,
    /// The withdrawal guard on the recorded balance failed.
    InsufficientBalance,
    /// The lockdown guard on a cw20 withdrawal failed.
    LockdownActive,
    /// A cw20 receive notification carried an unrecognized hook payload.
    InvalidHook,
}

} // verus!
