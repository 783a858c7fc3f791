//! Vault-wide state: permissions, stake statistics and the global reward
//! distribution record.

use vstd::prelude::*;

verus! {

/// Switches for deposits and withdrawals.
#[derive(Clone, Copy, Debug, PartialEq, Eq, Structural)]
pub struct StakePermissions {
    pub allow_deposits: bool,
    pub allow_withdrawals: bool,
}

/// Global stake statistics.
#[derive(Clone, Copy, Debug, PartialEq, Eq, Structural)]
pub struct StakeStats {
    /// Tokens the vault accounts for over its lifetime: active plus
    /// unstaking plus everything already released through vesting.
    pub total_staked: u64,
    /// Tokens staked right now, earning rewards.
    pub active_amount: u64,
    /// Tokens inside linear vesting, not earning rewards.
    pub unstaking_amount: u64,
    /// Tokens released from linear vesting, cumulative.
    pub total_vested: u64,
}

/// Reward distribution state, held in the higher-precision integer type so
/// that dividing by stake totals keeps fractional precision.
#[derive(Clone, Copy, Debug, PartialEq, Eq, Structural)]
pub struct RewardState {
    /// Rewards deposited but not yet folded into the accumulator.
    pub pending_rewards: u128,
    /// Cumulative rewards per token staked, scaled by the precision constant.
    pub reward_per_token_staked: u128,
    /// Total rewards folded into the accumulator, cumulative.
    pub total_distributed: u128,
    /// Total rewards collected by users, cumulative.
    pub total_claimed: u128,
}

/// The vault record: admin identity, configuration and the two global
/// ledgers.
#[derive(Clone, Copy, Debug, PartialEq, Eq, Structural)]
pub struct StakeVault {
    /// Whether the vault is initialized.
    pub is_initialized: bool,
    /// Admin identity, as the host names it.
    pub admin: u64,
    /// Whether the vault is paused.
    pub is_paused: bool,
    /// Permissions for deposits and withdrawals.
    pub permissions: StakePermissions,
    /// Linear vesting period in seconds, strictly positive.
    pub vesting_period: i64,
    /// Global stake statistics.
    pub stake_stats: StakeStats,
    /// Reward distribution state.
    pub reward_state: RewardState,
}

impl StakeVault {
    /// Validity of the vault: conservation across the three stake ledgers
    /// and a strictly positive vesting period.
    ///
    /// Conservation reads: what is active plus what is unstaking equals
    /// everything ever staked minus everything already released.
    pub open spec fn wf(self) -> bool {
        &&& self.stake_stats.active_amount + self.stake_stats.unstaking_amount
            == self.stake_stats.total_staked - self.stake_stats.total_vested
        &&& self.vesting_period > 0
    }
}

} // verus!
