//! Share-accounting core of an interest-bearing lending pool.
//!
//! The library tracks a pool's total custodied value and outstanding shares,
//! accrues continuously-compounded interest in fixed-point arithmetic,
//! converts between shares and asset value at the current price per share,
//! validates withdrawal requests, and applies a validated withdrawal
//! atomically to both the pool-wide and the per-depositor ledger.
//!
//! External collaborators (the clock source, durable storage, and the
//! transfer executor that physically moves tokens) hand the core plain
//! values and receive plain values back; the core itself is fully verified.

pub mod errors;
pub mod interest;
pub mod ledger;
pub mod shares;

pub use errors::LendingError;
pub use ledger::Asset;
pub use ledger::Depositor;
pub use ledger::Pool;
