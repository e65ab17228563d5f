//! How a request fails: with an error that is returned, or with a trap that
//! aborts the invocation.

use vstd::prelude::*;

verus! {

/// Errors that an entry point returns to its caller.
#[derive(Clone, Copy, PartialEq, Eq, Debug, Structural)]
pub enum ContractError {
    AlreadyInitialized,
    ContractPaused,
    InsufficientFunds,
    InvalidToken,
    NoActiveLoan,
    PoolBorrowerActiveLoan,
    PoolEmpty,
    PoolInsufficientFunds,
    PoolLengthMismatch,
    /// A check made outside this library failed with this error code.
    Rejected(u32),
}

/// Conditions under which an entry point aborts: nothing is stored and
/// nothing is sent.
#[derive(Clone, Copy, PartialEq, Eq, Debug, Structural)]
pub enum Trap {
    /// There is no configuration yet.
    NotInitialized,
    /// The contract is paused.
    Paused,
    /// The borrower has no active loan record.
    NoActiveLoan,
    /// The borrower's active loan record is already repaid or defaulted.
    LoanSettled,
    /// The loan's deadline has not passed.
    DeadlineNotPassed,
    /// The loan has not expired yet.
    NotExpired,
    /// There are no slashed funds to withdraw.
    NoSlashedFunds,
    /// A pool amount is below the minimum loan amount.
    AmountBelowMinimum,
    /// A pool amount is above what the borrower's stakes allow.
    AboveCollateralRatio,
    /// An item of the host's amount vector is not an amount.
    UnreadableAmount,
    /// The pool counter is exhausted.
    PoolIdOverflow,
    /// A sum, difference or product leaves its integer type.
    Overflow,
}

} // verus!
