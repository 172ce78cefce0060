//! An on-chain instruction handler that moves a fixed quantity of the
//! ledger's native unit from one account to another by delegating to the
//! runtime's privileged transfer sub-program.

use vstd::prelude::*;

pub mod handler;
pub mod ledger;

verus! {

/// The fixed quantity moved by every invocation, in base units of the
/// ledger's native currency (0.001 of the native unit).
pub const TRANSFER_AMOUNT: u64 = 1_000_000;

/// The number of account references every invocation must supply, in fixed
/// order: source, destination, privileged transfer sub-program.
pub const REQUIRED_ACCOUNTS: usize = 3;

} // verus!
