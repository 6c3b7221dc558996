//! A verified fungible-token ledger: balances, allowances, and an
//! append-only transaction log with strict accounting invariants.
use vstd::prelude::*;

pub mod allowances;
pub mod amount;
pub mod balances;
pub mod codec;
pub mod export;
pub mod ledger;
pub mod txlog;
pub mod types;

verus! {

/// Maximum allowed age, in nanoseconds, of a caller-supplied creation
/// timestamp: twenty-four hours.
pub const TX_WINDOW: u64 = 24 * 60 * 60 * 1_000_000_000;

} // verus!
