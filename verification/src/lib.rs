//! Accounting core of a token-staking vault.
//!
//! Staked value earns rewards in proportion to stake and time, through a
//! global reward-per-token accumulator; withdrawal requests unlock linearly
//! over a vesting window instead of instantly.  The host environment owns
//! persistent storage, authorization and token transfers; this crate owns the
//! ledgers and the arithmetic, and every operation here is verified to keep
//! them consistent.

pub mod constants;
pub mod error;
pub mod laws;
pub mod operations;
pub mod rewards;
pub mod stake_vault;
pub mod user_stake;
