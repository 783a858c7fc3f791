//! Vault-wide constants.

use vstd::prelude::*;

verus! {

/// Default vesting period: 30 days in seconds.
pub const DEFAULT_VESTING_PERIOD: i64 = 2_592_000;

/// Fixed-point scaling constant for reward-per-token arithmetic.
pub const PRECISION: u128 = 1_000_000_000_000;

/// Maximum number of concurrent unstake requests per user.
pub const MAX_UNSTAKE_REQUESTS: usize = 5;

} // verus!
