//! Failure taxonomy of the withdrawal path.

use vstd::prelude::*;

verus! {

/// Every way a withdrawal operation can fail. Each error aborts the whole
/// operation with no ledger mutation applied.
#[derive(Clone, Copy, Debug, PartialEq, Eq, Structural)]
pub enum LendingError {
    /// The requested amount exceeds the depositor's current value.
    /// Recoverable by retrying with a smaller amount.
    InsufficientFunds,
    /// A price per share was needed while the pool has no shares
    /// outstanding; the pool is in an inconsistent state.
    PoolEmpty,
    /// An intermediate computation (accrual multiplication, a product of
    /// shares and price) exceeds the representable range.
    ArithmeticOverflow,
    /// A ledger decrement would go below zero.
    ArithmeticUnderflow,
    /// The requested asset matches none of the assets the depositor
    /// holds shares in.
    UnknownAsset,
}

} // verus!
