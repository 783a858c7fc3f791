//! Error taxonomy of the staking engine.
//!
//! Every operation either fully applies or fails with one of these kinds and
//! leaves no partial mutation behind.

use vstd::prelude::*;

verus! {

#[derive(Clone, Copy, Debug, PartialEq, Eq, Structural)]
pub enum ErrorCode {
    /// Zero or out-of-range quantity.
    InvalidAmount,
    /// Requested unstake exceeds the active stake.
    InsufficientBalance,
    /// Every unstake-request slot is occupied.
    MaxUnstakeRequestsReached,
    /// Cancel target is out of range or an empty slot.
    InvalidRequestIndex,
    /// Claim target is out of range or an empty slot.
    InvalidUnstakeRequestId,
    /// The request holds nothing left to cancel.
    NoAmountToCancel,
    /// Nothing has vested on the named request yet.
    NoVestedTokens,
    /// Nothing has vested on any request yet.
    NoClaimableAmount,
    /// The user has no accumulated rewards.
    NoRewardsToClaim,
    /// Rewards cannot be distributed while nothing is staked.
    NoActiveStake,
    /// No deposited rewards are waiting for distribution.
    NoPendingRewards,
    /// A checked arithmetic step overflowed; the operation aborts whole.
    MathOverflow,
    /// Caller is not the vault admin.
    Unauthorized,
    /// Deposits are switched off.
    DepositsDisabled,
    /// Withdrawals are switched off.
    WithdrawalsDisabled,
    /// The vault is paused.
    VaultPaused,
    /// The vault is already paused.
    VaultAlreadyPaused,
    /// The vault is not paused.
    NotPaused,
    /// Emergency withdraw needs the vault paused first.
    VaultNotPaused,
    /// The vesting period must be strictly positive.
    InvalidVestingPeriod,
    /// The requested drain exceeds the vault's token balance.
    InsufficientVaultBalance,
}

} // verus!
