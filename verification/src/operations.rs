//! The public operations of the staking engine.
//!
//! Each operation takes the vault record, and where one user acts, that
//! user's record, as exclusively owned values for the duration of the call;
//! the host loads them before and writes them back after.  Every operation
//! either fully applies and returns `Ok`, or fails with an error code and
//! leaves both records exactly as they were.
//!
//! Well-formedness — conservation of the vault's stake ledgers, validity of
//! every request slot, and the user's totals staying within the vault's —
//! is required on entry and ensured on exit of every operation.

use vstd::prelude::*;
use vstd::arithmetic::mul::lemma_mul_inequality;
use crate::constants::DEFAULT_VESTING_PERIOD;
use crate::constants::MAX_UNSTAKE_REQUESTS;
use crate::constants::PRECISION;
use crate::error::ErrorCode;
use crate::rewards::checked_mul_u128;
use crate::rewards::compute_watermark;
use crate::rewards::refresh_overflow;
use crate::rewards::refreshed;
use crate::rewards::refreshed_values;
use crate::rewards::user_watermark;
use crate::rewards::watermark_int;
use crate::stake_vault::RewardState;
use crate::stake_vault::StakePermissions;
use crate::stake_vault::StakeStats;
use crate::stake_vault::StakeVault;
use crate::user_stake::all_wf;
use crate::user_stake::claim_all_requests;
use crate::user_stake::claimed_up;
use crate::user_stake::cleanup_requests;
use crate::user_stake::lemma_claim_all_sum;
use crate::user_stake::lemma_claimed_up;
use crate::user_stake::lemma_cleanup_sum;
use crate::user_stake::lemma_sum_claimable_le_remaining;
use crate::user_stake::sum_claimable;
use crate::user_stake::sum_remaining;
use crate::user_stake::UnstakeRequest;
use crate::user_stake::UserRewardState;
use crate::user_stake::UserStake;
use crate::user_stake::lemma_sum_remaining_element;
use crate::user_stake::lemma_sum_remaining_nonneg;
use crate::user_stake::lemma_sum_remaining_take_step;
use crate::user_stake::lemma_sum_remaining_update;

verus! {

/// The user's share of each vault ledger stays within that ledger: the
/// per-user projection of the vault aggregating all users' totals.
pub open spec fn linked(v: StakeVault, u: UserStake) -> bool {
    &&& u.active_stake_amount <= v.stake_stats.active_amount
    &&& sum_remaining(u.unstake_requests@) <= v.stake_stats.unstaking_amount
    &&& u.vested_stake_amount <= v.stake_stats.total_vested
}

/// Joint validity of a vault record and one user record.
pub open spec fn state_wf(v: StakeVault, u: UserStake) -> bool {
    &&& v.wf()
    &&& u.wf()
    &&& linked(v, u)
}

/// Decide joint validity of a vault record and one user record, exactly as
/// the operations require it.  The host runs this on records it loads before
/// handing them to an operation.
pub fn check_well_formed(vault: &StakeVault, user_stake: &UserStake) -> (r: bool)
    ensures
        r == state_wf(*vault, *user_stake),
{
    let stats = vault.stake_stats;
    if (stats.active_amount as u128) + (stats.unstaking_amount as u128) + (stats.total_vested
        as u128) != (stats.total_staked as u128) {
        return false;
    }
    if vault.vesting_period <= 0 {
        return false;
    }
    if user_stake.unstake_requests.len() != MAX_UNSTAKE_REQUESTS {
        return false;
    }
    let s = Ghost(user_stake.unstake_requests@);
    let n = user_stake.unstake_requests.len();
    let mut total: u128 = 0;
    let mut i: usize = 0;
    while i < n
        invariant
            i <= n,
            n == s@.len(),
            s@ == user_stake.unstake_requests@,
            forall|j: int| 0 <= j < i ==> (#[trigger] s@[j]).wf(),
            total == sum_remaining(s@.take(i as int)),
            total <= i * (u64::MAX as u128),
        decreases n - i,
    {
        let req = user_stake.unstake_requests[i];
        if req.claimed_amount > req.total_amount {
            return false;
        }
        if req.start_timestamp < 0 || req.start_timestamp > req.end_timestamp {
            return false;
        }
        if req.total_amount == 0 && (req.claimed_amount != 0 || req.start_timestamp != 0
            || req.end_timestamp != 0) {
            return false;
        }
        proof {
            lemma_sum_remaining_take_step(s@, i as int);
            assert((i + 1) * (u64::MAX as u128) == i * (u64::MAX as u128) + (u64::MAX as u128))
                by (nonlinear_arith);
        }
        total = total + ((req.total_amount - req.claimed_amount) as u128);
        i = i + 1;
    }
    proof {
        assert(s@.take(n as int) =~= s@);
    }
    if total > u64::MAX as u128 {
        return false;
    }
    if user_stake.active_stake_amount > stats.active_amount {
        return false;
    }
    if total > stats.unstaking_amount as u128 {
        return false;
    }
    if user_stake.vested_stake_amount > stats.total_vested {
        return false;
    }
    true
}

/// Which error, if any, initialization reports for this configuration.
pub open spec fn initialize_err(vesting_period: Option<i64>) -> Option<ErrorCode> {
    match vesting_period {
        Some(p) => if p <= 0 {
            Some(ErrorCode::InvalidVestingPeriod)
        } else {
            None
        },
        None => None,
    }
}

/// The freshly initialized vault: zeroed ledgers, both permissions on, not
/// paused, and the requested or default vesting period.
pub open spec fn initial_vault(admin: u64, vesting_period: Option<i64>) -> StakeVault {
    StakeVault {
        is_initialized: true,
        admin,
        is_paused: false,
        permissions: StakePermissions { allow_deposits: true, allow_withdrawals: true },
        vesting_period: match vesting_period {
            Some(p) => p,
            None => DEFAULT_VESTING_PERIOD,
        },
        stake_stats: StakeStats {
            total_staked: 0,
            active_amount: 0,
            unstaking_amount: 0,
            total_vested: 0,
        },
        reward_state: RewardState {
            pending_rewards: 0,
            reward_per_token_staked: 0,
            total_distributed: 0,
            total_claimed: 0,
        },
    }
}

/// Create the vault with an optional custom vesting period, which must be
/// strictly positive; without one the default period applies.
pub fn initialize(admin: u64, vesting_period: Option<i64>) -> (r: Result<StakeVault, ErrorCode>)
    ensures
        match initialize_err(vesting_period) {
            Some(e) => r == Err::<StakeVault, ErrorCode>(e),
            None => {
                &&& r == Ok::<StakeVault, ErrorCode>(initial_vault(admin, vesting_period))
                &&& initial_vault(admin, vesting_period).wf()
            },
        },
{
    let period = match vesting_period {
        Some(p) => {
            if p <= 0 {
                return Err(ErrorCode::InvalidVestingPeriod);
            }
            p
        },
        None => DEFAULT_VESTING_PERIOD,
    };
    Ok(
        StakeVault {
            is_initialized: true,
            admin,
            is_paused: false,
            permissions: StakePermissions { allow_deposits: true, allow_withdrawals: true },
            vesting_period: period,
            stake_stats: StakeStats {
                total_staked: 0,
                active_amount: 0,
                unstaking_amount: 0,
                total_vested: 0,
            },
            reward_state: RewardState {
                pending_rewards: 0,
                reward_per_token_staked: 0,
                total_distributed: 0,
                total_claimed: 0,
            },
        },
    )
}

/// Pause the vault.  Admin only; fails if already paused.
pub fn pause_vault(vault: &mut StakeVault, caller: u64) -> (r: Result<(), ErrorCode>)
    ensures
        caller != old(vault).admin ==> r == Err::<(), ErrorCode>(ErrorCode::Unauthorized) && *final(vault) == *old(vault),
        caller == old(vault).admin && old(vault).is_paused ==> r == Err::<(), ErrorCode>(
            ErrorCode::VaultAlreadyPaused,
        ) && *final(vault) == *old(vault),
        caller == old(vault).admin && !old(vault).is_paused ==> r == Ok::<(), ErrorCode>(())
            && *final(vault) == (StakeVault { is_paused: true, ..*old(vault) }),
        old(vault).wf() ==> final(vault).wf(),
{
    if caller != vault.admin {
        return Err(ErrorCode::Unauthorized);
    }
    if vault.is_paused {
        return Err(ErrorCode::VaultAlreadyPaused);
    }
    vault.is_paused = true;
    Ok(())
}

/// Unpause the vault.  Admin only; fails if not paused.
pub fn unpause_vault(vault: &mut StakeVault, caller: u64) -> (r: Result<(), ErrorCode>)
    ensures
        caller != old(vault).admin ==> r == Err::<(), ErrorCode>(ErrorCode::Unauthorized) && *final(vault) == *old(vault),
        caller == old(vault).admin && !old(vault).is_paused ==> r == Err::<(), ErrorCode>(
            ErrorCode::NotPaused,
        ) && *final(vault) == *old(vault),
        caller == old(vault).admin && old(vault).is_paused ==> r == Ok::<(), ErrorCode>(())
            && *final(vault) == (StakeVault { is_paused: false, ..*old(vault) }),
        old(vault).wf() ==> final(vault).wf(),
{
    if caller != vault.admin {
        return Err(ErrorCode::Unauthorized);
    }
    if !vault.is_paused {
        return Err(ErrorCode::NotPaused);
    }
    vault.is_paused = false;
    Ok(())
}

/// Change the vault-wide vesting period.  Admin only; the period must stay
/// strictly positive.  Requests already in flight keep the end timestamp
/// fixed at their creation and are unaffected.
pub fn update_vesting_period(vault: &mut StakeVault, caller: u64, new_vesting_period: i64) -> (r:
    Result<(), ErrorCode>)
    ensures
        caller != old(vault).admin ==> r == Err::<(), ErrorCode>(ErrorCode::Unauthorized) && *final(vault) == *old(vault),
        caller == old(vault).admin && new_vesting_period <= 0 ==> r == Err::<(), ErrorCode>(
            ErrorCode::InvalidVestingPeriod,
        ) && *final(vault) == *old(vault),
        caller == old(vault).admin && new_vesting_period > 0 ==> r == Ok::<(), ErrorCode>(())
            && *final(vault) == (StakeVault { vesting_period: new_vesting_period, ..*old(vault) }),
        old(vault).wf() ==> final(vault).wf(),
{
    if caller != vault.admin {
        return Err(ErrorCode::Unauthorized);
    }
    if new_vesting_period <= 0 {
        return Err(ErrorCode::InvalidVestingPeriod);
    }
    vault.vesting_period = new_vesting_period;
    Ok(())
}

/// Toggle the deposit and withdrawal switches.  Admin only; a switch not
/// named keeps its value.
pub fn update_permissions(
    vault: &mut StakeVault,
    caller: u64,
    allow_deposits: Option<bool>,
    allow_withdrawals: Option<bool>,
) -> (r: Result<(), ErrorCode>)
    ensures
        caller != old(vault).admin ==> r == Err::<(), ErrorCode>(ErrorCode::Unauthorized) && *final(vault) == *old(vault),
        caller == old(vault).admin ==> r == Ok::<(), ErrorCode>(()) && *final(vault) == (StakeVault {
            permissions: StakePermissions {
                allow_deposits: match allow_deposits {
                    Some(b) => b,
                    None => old(vault).permissions.allow_deposits,
                },
                allow_withdrawals: match allow_withdrawals {
                    Some(b) => b,
                    None => old(vault).permissions.allow_withdrawals,
                },
            },
            ..*old(vault)
        }),
        old(vault).wf() ==> final(vault).wf(),
{
    if caller != vault.admin {
        return Err(ErrorCode::Unauthorized);
    }
    match allow_deposits {
        Some(b) => {
            vault.permissions.allow_deposits = b;
        },
        None => {},
    }
    match allow_withdrawals {
        Some(b) => {
            vault.permissions.allow_withdrawals = b;
        },
        None => {},
    }
    Ok(())
}

/// How much an emergency withdraw drains: a zero request means the whole
/// vault balance.
pub open spec fn emergency_withdraw_amount(amount: u64, vault_balance: u64) -> u64 {
    if amount == 0 {
        vault_balance
    } else {
        amount
    }
}

/// Decide an emergency drain of the vault's token balance.  Admin only and
/// only while paused; returns the amount the host must transfer out.  The
/// ledger record itself is untouched.
pub fn emergency_withdraw(vault: &StakeVault, caller: u64, amount: u64, vault_balance: u64) -> (r:
    Result<u64, ErrorCode>)
    ensures
        caller != vault.admin ==> r == Err::<u64, ErrorCode>(ErrorCode::Unauthorized),
        caller == vault.admin && !vault.is_paused ==> r == Err::<u64, ErrorCode>(
            ErrorCode::VaultNotPaused,
        ),
        caller == vault.admin && vault.is_paused && emergency_withdraw_amount(amount, vault_balance)
            == 0 ==> r == Err::<u64, ErrorCode>(ErrorCode::InvalidAmount),
        caller == vault.admin && vault.is_paused && emergency_withdraw_amount(amount, vault_balance)
            > vault_balance ==> r == Err::<u64, ErrorCode>(ErrorCode::InsufficientVaultBalance),
        caller == vault.admin && vault.is_paused && 0 < emergency_withdraw_amount(
            amount,
            vault_balance,
        ) <= vault_balance ==> r == Ok::<u64, ErrorCode>(
            emergency_withdraw_amount(amount, vault_balance),
        ),
{
    if caller != vault.admin {
        return Err(ErrorCode::Unauthorized);
    }
    if !vault.is_paused {
        return Err(ErrorCode::VaultNotPaused);
    }
    let withdraw_amount = if amount == 0 {
        vault_balance
    } else {
        amount
    };
    if withdraw_amount == 0 {
        return Err(ErrorCode::InvalidAmount);
    }
    if withdraw_amount > vault_balance {
        return Err(ErrorCode::InsufficientVaultBalance);
    }
    Ok(withdraw_amount)
}

/// Which error, if any, a reward deposit reports.
pub open spec fn deposit_rewards_err(v: StakeVault, caller: u64, amount: u64) -> Option<ErrorCode> {
    if caller != v.admin {
        Some(ErrorCode::Unauthorized)
    } else if amount == 0 {
        Some(ErrorCode::InvalidAmount)
    } else if v.reward_state.pending_rewards + amount > u128::MAX {
        Some(ErrorCode::MathOverflow)
    } else {
        None
    }
}

/// Deposit rewards into the vault's pending pool.  Admin only; the host
/// transfers the tokens in when this returns `Ok`.
pub fn deposit_rewards(vault: &mut StakeVault, caller: u64, amount: u64) -> (r: Result<
    (),
    ErrorCode,
>)
    ensures
        match deposit_rewards_err(*old(vault), caller, amount) {
            Some(e) => r == Err::<(), ErrorCode>(e) && *final(vault) == *old(vault),
            None => r == Ok::<(), ErrorCode>(()) && *final(vault) == (StakeVault {
                reward_state: RewardState {
                    pending_rewards: (old(vault).reward_state.pending_rewards + amount) as u128,
                    ..old(vault).reward_state
                },
                ..*old(vault)
            }),
        },
        old(vault).wf() ==> final(vault).wf(),
{
    if caller != vault.admin {
        return Err(ErrorCode::Unauthorized);
    }
    if amount == 0 {
        return Err(ErrorCode::InvalidAmount);
    }
    if vault.reward_state.pending_rewards > u128::MAX - (amount as u128) {
        return Err(ErrorCode::MathOverflow);
    }
    vault.reward_state.pending_rewards = vault.reward_state.pending_rewards + (amount as u128);
    Ok(())
}

/// The accumulator increment of one distribution: the pending pool scaled
/// by the precision constant, divided by the active stake, floored.
pub open spec fn reward_increment(v: StakeVault) -> int {
    (v.reward_state.pending_rewards * PRECISION) / (v.stake_stats.active_amount as int)
}

/// Which error, if any, a distribution reports.
pub open spec fn distribute_rewards_err(v: StakeVault) -> Option<ErrorCode> {
    if v.reward_state.pending_rewards == 0 {
        Some(ErrorCode::NoPendingRewards)
    } else if v.stake_stats.active_amount == 0 {
        Some(ErrorCode::NoActiveStake)
    } else if v.is_paused {
        Some(ErrorCode::VaultPaused)
    } else if v.reward_state.pending_rewards * PRECISION > u128::MAX {
        Some(ErrorCode::MathOverflow)
    } else if v.reward_state.reward_per_token_staked + reward_increment(v) > u128::MAX {
        Some(ErrorCode::MathOverflow)
    } else if v.reward_state.total_distributed + v.reward_state.pending_rewards > u128::MAX {
        Some(ErrorCode::MathOverflow)
    } else {
        None
    }
}

/// The vault after one distribution: the pending pool folded into the
/// accumulator and the distributed total, then cleared.
pub open spec fn distribute_rewards_applied(v0: StakeVault, v1: StakeVault) -> bool {
    v1 == (StakeVault {
        reward_state: RewardState {
            pending_rewards: 0,
            reward_per_token_staked: (v0.reward_state.reward_per_token_staked + reward_increment(
                v0,
            )) as u128,
            total_distributed: (v0.reward_state.total_distributed
                + v0.reward_state.pending_rewards) as u128,
            total_claimed: v0.reward_state.total_claimed,
        },
        ..v0
    })
}

/// Fold the pending reward pool into the global accumulator: the only place
/// the accumulator advances, and a permissionless crank any actor may turn.
pub fn distribute_rewards(vault: &mut StakeVault) -> (r: Result<(), ErrorCode>)
    ensures
        match distribute_rewards_err(*old(vault)) {
            Some(e) => r == Err::<(), ErrorCode>(e) && *final(vault) == *old(vault),
            None => r == Ok::<(), ErrorCode>(()) && distribute_rewards_applied(
                *old(vault),
                *final(vault),
            ),
        },
        final(vault).reward_state.reward_per_token_staked >= old(vault).reward_state.reward_per_token_staked,
        old(vault).wf() ==> final(vault).wf(),
{
    let pending = vault.reward_state.pending_rewards;
    let total_active_stake = vault.stake_stats.active_amount;
    if pending == 0 {
        return Err(ErrorCode::NoPendingRewards);
    }
    if total_active_stake == 0 {
        return Err(ErrorCode::NoActiveStake);
    }
    if vault.is_paused {
        return Err(ErrorCode::VaultPaused);
    }
    let scaled = match checked_mul_u128(pending, PRECISION) {
        Some(p) => p,
        None => {
            return Err(ErrorCode::MathOverflow);
        },
    };
    let increment = scaled / (total_active_stake as u128);
    if vault.reward_state.reward_per_token_staked > u128::MAX - increment {
        return Err(ErrorCode::MathOverflow);
    }
    if vault.reward_state.total_distributed > u128::MAX - pending {
        return Err(ErrorCode::MathOverflow);
    }
    vault.reward_state.reward_per_token_staked = vault.reward_state.reward_per_token_staked
        + increment;
    vault.reward_state.total_distributed = vault.reward_state.total_distributed + pending;
    vault.reward_state.pending_rewards = 0;
    Ok(())
}


/// Which error, if any, a stake deposit reports.
pub open spec fn deposit_stake_err(v: StakeVault, u: UserStake, amount: u64) -> Option<ErrorCode> {
    if amount == 0 {
        Some(ErrorCode::InvalidAmount)
    } else if v.is_paused {
        Some(ErrorCode::VaultPaused)
    } else if !v.permissions.allow_deposits {
        Some(ErrorCode::DepositsDisabled)
    } else if v.stake_stats.total_staked + amount > u64::MAX {
        Some(ErrorCode::MathOverflow)
    } else if refresh_overflow(u, v) {
        Some(ErrorCode::MathOverflow)
    } else if (u.active_stake_amount + amount) * v.reward_state.reward_per_token_staked
        > u128::MAX {
        Some(ErrorCode::MathOverflow)
    } else {
        None
    }
}

/// The two records after a deposit of `amount` at time `now`: the amount
/// joins the active ledgers on both sides, rewards are refreshed at the old
/// stake and the snapshot re-based at the new one.
pub open spec fn deposit_stake_applied(
    v0: StakeVault,
    u0: UserStake,
    v1: StakeVault,
    u1: UserStake,
    amount: u64,
    now: i64,
) -> bool {
    &&& v1 == (StakeVault {
        stake_stats: StakeStats {
            total_staked: (v0.stake_stats.total_staked + amount) as u64,
            active_amount: (v0.stake_stats.active_amount + amount) as u64,
            ..v0.stake_stats
        },
        ..v0
    })
    &&& u1 == (UserStake {
        is_initialized: true,
        active_stake_amount: (u0.active_stake_amount + amount) as u64,
        reward_state: UserRewardState {
            reward_snapshot: watermark_int(
                u0.active_stake_amount + amount,
                v0.reward_state.reward_per_token_staked as int,
            ) as u128,
            unclaimed_rewards: refreshed(u0, v0).reward_state.unclaimed_rewards,
            total_claimed: u0.reward_state.total_claimed,
        },
        last_update_timestamp: now,
        ..u0
    })
}

/// Deposit stake: the amount enters the active ledgers of both records.
/// The host transfers the tokens in when this returns `Ok`.
pub fn deposit_stake(
    vault: &mut StakeVault,
    user_stake: &mut UserStake,
    amount: u64,
    now: i64,
) -> (r: Result<(), ErrorCode>)
    requires
        state_wf(*old(vault), *old(user_stake)),
    ensures
        state_wf(*final(vault), *final(user_stake)),
        match deposit_stake_err(*old(vault), *old(user_stake), amount) {
            Some(e) => {
                &&& r == Err::<(), ErrorCode>(e)
                &&& *final(vault) == *old(vault)
                &&& *final(user_stake) == *old(user_stake)
            },
            None => {
                &&& r == Ok::<(), ErrorCode>(())
                &&& deposit_stake_applied(
                    *old(vault),
                    *old(user_stake),
                    *final(vault),
                    *final(user_stake),
                    amount,
                    now,
                )
            },
        },
{
    if amount == 0 {
        return Err(ErrorCode::InvalidAmount);
    }
    if vault.is_paused {
        return Err(ErrorCode::VaultPaused);
    }
    if !vault.permissions.allow_deposits {
        return Err(ErrorCode::DepositsDisabled);
    }
    if vault.stake_stats.total_staked > u64::MAX - amount {
        return Err(ErrorCode::MathOverflow);
    }
    let refreshed_pair = match refreshed_values(user_stake, vault) {
        Ok(p) => p,
        Err(e) => {
            return Err(e);
        },
    };
    let new_unclaimed = refreshed_pair.1;
    let new_active = user_stake.active_stake_amount + amount;
    let new_snap = match compute_watermark(new_active, vault.reward_state.reward_per_token_staked) {
        Ok(w) => w,
        Err(e) => {
            return Err(e);
        },
    };
    vault.stake_stats.total_staked = vault.stake_stats.total_staked + amount;
    vault.stake_stats.active_amount = vault.stake_stats.active_amount + amount;
    user_stake.is_initialized = true;
    user_stake.active_stake_amount = new_active;
    user_stake.reward_state.reward_snapshot = new_snap;
    user_stake.reward_state.unclaimed_rewards = new_unclaimed;
    user_stake.last_update_timestamp = now;
    Ok(())
}

/// Which error, if any, a reward collection reports.
pub open spec fn collect_rewards_err(v: StakeVault, u: UserStake) -> Option<ErrorCode> {
    if refresh_overflow(u, v) {
        Some(ErrorCode::MathOverflow)
    } else if refreshed(u, v).reward_state.unclaimed_rewards == 0 {
        Some(ErrorCode::NoRewardsToClaim)
    } else if u.reward_state.total_claimed + refreshed(u, v).reward_state.unclaimed_rewards
        > u64::MAX {
        Some(ErrorCode::MathOverflow)
    } else if v.reward_state.total_claimed + refreshed(u, v).reward_state.unclaimed_rewards
        > u128::MAX {
        Some(ErrorCode::MathOverflow)
    } else {
        None
    }
}

/// The two records after a collection at time `now`: the freshly refreshed
/// unclaimed balance moves into both claimed totals and is zeroed.
pub open spec fn collect_rewards_applied(
    v0: StakeVault,
    u0: UserStake,
    v1: StakeVault,
    u1: UserStake,
    now: i64,
) -> bool {
    let amt = refreshed(u0, v0).reward_state.unclaimed_rewards;
    &&& u1 == (UserStake {
        reward_state: UserRewardState {
            reward_snapshot: user_watermark(u0, v0) as u128,
            unclaimed_rewards: 0,
            total_claimed: (u0.reward_state.total_claimed + amt) as u64,
        },
        last_update_timestamp: now,
        ..u0
    })
    &&& v1 == (StakeVault {
        reward_state: RewardState {
            total_claimed: (v0.reward_state.total_claimed + amt) as u128,
            ..v0.reward_state
        },
        ..v0
    })
}

/// Collect the user's accumulated rewards: refresh first, then hand the
/// whole unclaimed balance out.  Returns the amount the host must transfer.
pub fn collect_rewards(vault: &mut StakeVault, user_stake: &mut UserStake, now: i64) -> (r: Result<
    u64,
    ErrorCode,
>)
    requires
        state_wf(*old(vault), *old(user_stake)),
    ensures
        state_wf(*final(vault), *final(user_stake)),
        match collect_rewards_err(*old(vault), *old(user_stake)) {
            Some(e) => {
                &&& r == Err::<u64, ErrorCode>(e)
                &&& *final(vault) == *old(vault)
                &&& *final(user_stake) == *old(user_stake)
            },
            None => {
                &&& r == Ok::<u64, ErrorCode>(
                    refreshed(*old(user_stake), *old(vault)).reward_state.unclaimed_rewards,
                )
                &&& collect_rewards_applied(
                    *old(vault),
                    *old(user_stake),
                    *final(vault),
                    *final(user_stake),
                    now,
                )
            },
        },
{
    let refreshed_pair = match refreshed_values(user_stake, vault) {
        Ok(p) => p,
        Err(e) => {
            return Err(e);
        },
    };
    let new_snap = refreshed_pair.0;
    let unclaimed = refreshed_pair.1;
    if unclaimed == 0 {
        return Err(ErrorCode::NoRewardsToClaim);
    }
    if user_stake.reward_state.total_claimed > u64::MAX - unclaimed {
        return Err(ErrorCode::MathOverflow);
    }
    if vault.reward_state.total_claimed > u128::MAX - (unclaimed as u128) {
        return Err(ErrorCode::MathOverflow);
    }
    user_stake.reward_state.reward_snapshot = new_snap;
    user_stake.reward_state.unclaimed_rewards = 0;
    user_stake.reward_state.total_claimed = user_stake.reward_state.total_claimed + unclaimed;
    user_stake.last_update_timestamp = now;
    vault.reward_state.total_claimed = vault.reward_state.total_claimed + (unclaimed as u128);
    Ok(unclaimed)
}

/// Whether the arena still has a free slot.
pub open spec fn has_empty_slot(s: Seq<UnstakeRequest>) -> bool {
    exists|i: int| 0 <= i < s.len() && (#[trigger] s[i]).total_amount == 0
}

/// Which error, if any, an unstake request reports.
pub open spec fn unstake_request_err(
    v: StakeVault,
    u: UserStake,
    amount: u64,
    now: i64,
) -> Option<ErrorCode> {
    if !v.permissions.allow_withdrawals {
        Some(ErrorCode::WithdrawalsDisabled)
    } else if amount == 0 {
        Some(ErrorCode::InvalidAmount)
    } else if amount > u.active_stake_amount {
        Some(ErrorCode::InsufficientBalance)
    } else if !has_empty_slot(u.unstake_requests@) {
        Some(ErrorCode::MaxUnstakeRequestsReached)
    } else if refresh_overflow(u, v) {
        Some(ErrorCode::MathOverflow)
    } else if now + v.vesting_period > i64::MAX {
        Some(ErrorCode::MathOverflow)
    } else if v.stake_stats.unstaking_amount + amount > u64::MAX {
        Some(ErrorCode::MathOverflow)
    } else {
        None
    }
}

/// The two records after an unstake request of `amount` at time `now`,
/// filling the first free slot `idx` with a request vesting from `now` over
/// the vault's current period; the amount moves active to unstaking on both
/// sides.
pub open spec fn unstake_request_applied(
    v0: StakeVault,
    u0: UserStake,
    v1: StakeVault,
    u1: UserStake,
    amount: u64,
    now: i64,
    idx: int,
) -> bool {
    let new_req = UnstakeRequest {
        total_amount: amount,
        claimed_amount: 0,
        start_timestamp: now,
        end_timestamp: (now + v0.vesting_period) as i64,
    };
    &&& 0 <= idx < u0.unstake_requests@.len()
    &&& u0.unstake_requests@[idx].total_amount == 0
    &&& forall|j: int| 0 <= j < idx ==> (#[trigger] u0.unstake_requests@[j]).total_amount > 0
    &&& u1.unstake_requests@ == u0.unstake_requests@.update(idx, new_req)
    &&& u1 == (UserStake {
        active_stake_amount: (u0.active_stake_amount - amount) as u64,
        unstake_requests: u1.unstake_requests,
        reward_state: UserRewardState {
            reward_snapshot: watermark_int(
                u0.active_stake_amount - amount,
                v0.reward_state.reward_per_token_staked as int,
            ) as u128,
            unclaimed_rewards: refreshed(u0, v0).reward_state.unclaimed_rewards,
            total_claimed: u0.reward_state.total_claimed,
        },
        last_update_timestamp: now,
        ..u0
    })
    &&& v1 == (StakeVault {
        stake_stats: StakeStats {
            active_amount: (v0.stake_stats.active_amount - amount) as u64,
            unstaking_amount: (v0.stake_stats.unstaking_amount + amount) as u64,
            ..v0.stake_stats
        },
        ..v0
    })
}

/// Request to unstake: starts the linear vesting clock on `amount`, which
/// stops earning rewards at once.  Returns the slot index of the new
/// request.
pub fn unstake_request(
    vault: &mut StakeVault,
    user_stake: &mut UserStake,
    amount: u64,
    now: i64,
) -> (r: Result<u8, ErrorCode>)
    requires
        state_wf(*old(vault), *old(user_stake)),
        now >= 0,
    ensures
        state_wf(*final(vault), *final(user_stake)),
        match unstake_request_err(*old(vault), *old(user_stake), amount, now) {
            Some(e) => {
                &&& r == Err::<u8, ErrorCode>(e)
                &&& *final(vault) == *old(vault)
                &&& *final(user_stake) == *old(user_stake)
            },
            None => r matches Ok(idx) && unstake_request_applied(
                *old(vault),
                *old(user_stake),
                *final(vault),
                *final(user_stake),
                amount,
                now,
                idx as int,
            ),
        },
{
    if !vault.permissions.allow_withdrawals {
        return Err(ErrorCode::WithdrawalsDisabled);
    }
    if amount == 0 {
        return Err(ErrorCode::InvalidAmount);
    }
    if amount > user_stake.active_stake_amount {
        return Err(ErrorCode::InsufficientBalance);
    }
    let idx = match user_stake.find_empty_slot() {
        Some(i) => i,
        None => {
            return Err(ErrorCode::MaxUnstakeRequestsReached);
        },
    };
    let refreshed_pair = match refreshed_values(user_stake, vault) {
        Ok(p) => p,
        Err(e) => {
            return Err(e);
        },
    };
    let new_unclaimed = refreshed_pair.1;
    if now > i64::MAX - vault.vesting_period {
        return Err(ErrorCode::MathOverflow);
    }
    let end_time = now + vault.vesting_period;
    if vault.stake_stats.unstaking_amount > u64::MAX - amount {
        return Err(ErrorCode::MathOverflow);
    }
    let new_active = user_stake.active_stake_amount - amount;
    let new_snap = match compute_watermark(new_active, vault.reward_state.reward_per_token_staked) {
        Ok(w) => w,
        Err(e) => {
            proof {
                lemma_mul_inequality(
                    new_active as int,
                    user_stake.active_stake_amount as int,
                    vault.reward_state.reward_per_token_staked as int,
                );
                assert(false);
            }
            return Err(e);
        },
    };
    let ghost old_seq = user_stake.unstake_requests@;
    let new_req = UnstakeRequest {
        total_amount: amount,
        claimed_amount: 0,
        start_timestamp: now,
        end_timestamp: end_time,
    };
    user_stake.unstake_requests[idx] = new_req;
    user_stake.active_stake_amount = new_active;
    user_stake.reward_state.reward_snapshot = new_snap;
    user_stake.reward_state.unclaimed_rewards = new_unclaimed;
    user_stake.last_update_timestamp = now;
    vault.stake_stats.active_amount = vault.stake_stats.active_amount - amount;
    vault.stake_stats.unstaking_amount = vault.stake_stats.unstaking_amount + amount;
    proof {
        lemma_sum_remaining_update(old_seq, idx as int, new_req);
    }
    Ok(idx as u8)
}

/// Which error, if any, cancelling an unstake request reports.
pub open spec fn cancel_unstake_err(
    v: StakeVault,
    u: UserStake,
    request_index: u8,
) -> Option<ErrorCode> {
    if request_index >= MAX_UNSTAKE_REQUESTS
        || u.unstake_requests@[request_index as int].total_amount == 0 {
        Some(ErrorCode::InvalidRequestIndex)
    } else if v.is_paused {
        Some(ErrorCode::VaultPaused)
    } else if refresh_overflow(u, v) {
        Some(ErrorCode::MathOverflow)
    } else if u.unstake_requests@[request_index as int].remaining() == 0 {
        Some(ErrorCode::NoAmountToCancel)
    } else if (u.active_stake_amount + u.unstake_requests@[request_index as int].remaining())
        * v.reward_state.reward_per_token_staked > u128::MAX {
        Some(ErrorCode::MathOverflow)
    } else {
        None
    }
}

/// The two records after a cancellation at time `now`: the request's
/// unclaimed remainder returns unstaking to active on both sides and the
/// slot is freed.
pub open spec fn cancel_unstake_applied(
    v0: StakeVault,
    u0: UserStake,
    v1: StakeVault,
    u1: UserStake,
    request_index: u8,
    now: i64,
) -> bool {
    let idx = request_index as int;
    let rem = u0.unstake_requests@[idx].remaining();
    &&& u1.unstake_requests@ == u0.unstake_requests@.update(idx, UnstakeRequest::spec_empty())
    &&& u1 == (UserStake {
        active_stake_amount: (u0.active_stake_amount + rem) as u64,
        unstake_requests: u1.unstake_requests,
        reward_state: UserRewardState {
            reward_snapshot: watermark_int(
                u0.active_stake_amount + rem,
                v0.reward_state.reward_per_token_staked as int,
            ) as u128,
            unclaimed_rewards: refreshed(u0, v0).reward_state.unclaimed_rewards,
            total_claimed: u0.reward_state.total_claimed,
        },
        last_update_timestamp: now,
        ..u0
    })
    &&& v1 == (StakeVault {
        stake_stats: StakeStats {
            active_amount: (v0.stake_stats.active_amount + rem) as u64,
            unstaking_amount: (v0.stake_stats.unstaking_amount - rem) as u64,
            ..v0.stake_stats
        },
        ..v0
    })
}

/// Cancel an unstake request: its unclaimed remainder returns to active
/// stake and the slot is freed.  Returns the amount returned to active.
pub fn cancel_unstake(
    vault: &mut StakeVault,
    user_stake: &mut UserStake,
    request_index: u8,
    now: i64,
) -> (r: Result<u64, ErrorCode>)
    requires
        state_wf(*old(vault), *old(user_stake)),
    ensures
        state_wf(*final(vault), *final(user_stake)),
        match cancel_unstake_err(*old(vault), *old(user_stake), request_index) {
            Some(e) => {
                &&& r == Err::<u64, ErrorCode>(e)
                &&& *final(vault) == *old(vault)
                &&& *final(user_stake) == *old(user_stake)
            },
            None => {
                &&& r == Ok::<u64, ErrorCode>(
                    old(user_stake).unstake_requests@[request_index as int].remaining() as u64,
                )
                &&& cancel_unstake_applied(
                    *old(vault),
                    *old(user_stake),
                    *final(vault),
                    *final(user_stake),
                    request_index,
                    now,
                )
            },
        },
{
    let idx = request_index as usize;
    if idx >= MAX_UNSTAKE_REQUESTS {
        return Err(ErrorCode::InvalidRequestIndex);
    }
    let req = user_stake.unstake_requests[idx];
    if req.is_empty() {
        return Err(ErrorCode::InvalidRequestIndex);
    }
    if vault.is_paused {
        return Err(ErrorCode::VaultPaused);
    }
    let refreshed_pair = match refreshed_values(user_stake, vault) {
        Ok(p) => p,
        Err(e) => {
            return Err(e);
        },
    };
    let new_unclaimed = refreshed_pair.1;
    let remaining = req.total_amount - req.claimed_amount;
    if remaining == 0 {
        return Err(ErrorCode::NoAmountToCancel);
    }
    proof {
        lemma_sum_remaining_element(user_stake.unstake_requests@, idx as int);
    }
    let new_active = user_stake.active_stake_amount + remaining;
    let new_snap = match compute_watermark(new_active, vault.reward_state.reward_per_token_staked) {
        Ok(w) => w,
        Err(e) => {
            return Err(e);
        },
    };
    let ghost old_seq = user_stake.unstake_requests@;
    user_stake.unstake_requests[idx] = UnstakeRequest::default();
    user_stake.active_stake_amount = new_active;
    user_stake.reward_state.reward_snapshot = new_snap;
    user_stake.reward_state.unclaimed_rewards = new_unclaimed;
    user_stake.last_update_timestamp = now;
    vault.stake_stats.active_amount = vault.stake_stats.active_amount + remaining;
    vault.stake_stats.unstaking_amount = vault.stake_stats.unstaking_amount - remaining;
    proof {
        lemma_sum_remaining_update(old_seq, idx as int, UnstakeRequest::spec_empty());
    }
    Ok(remaining)
}


/// The arena after the claim itself, before cleanup: one request claimed
/// up, or every request claimed up.
pub open spec fn requests_after_claim(
    s: Seq<UnstakeRequest>,
    request_id: Option<u8>,
    t: int,
) -> Seq<UnstakeRequest> {
    match request_id {
        Some(i) => s.update(i as int, claimed_up(s[i as int], t)),
        None => claim_all_requests(s, t),
    }
}

/// How much a claim releases: one request's claimable amount, or the sum
/// over all requests.
pub open spec fn claim_amount(u: UserStake, request_id: Option<u8>, t: int) -> int {
    match request_id {
        Some(i) => u.unstake_requests@[i as int].claimable_at(t),
        None => sum_claimable(u.unstake_requests@, t),
    }
}

/// Which error, if any, a claim reports.
pub open spec fn claim_vested_err(
    v: StakeVault,
    u: UserStake,
    request_id: Option<u8>,
    t: int,
) -> Option<ErrorCode> {
    if !v.permissions.allow_withdrawals {
        Some(ErrorCode::WithdrawalsDisabled)
    } else {
        match request_id {
            Some(i) => if i >= MAX_UNSTAKE_REQUESTS || u.unstake_requests@[i as int].total_amount
                == 0 {
                Some(ErrorCode::InvalidUnstakeRequestId)
            } else if u.unstake_requests@[i as int].claimable_at(t) == 0 {
                Some(ErrorCode::NoVestedTokens)
            } else {
                None
            },
            None => if sum_claimable(u.unstake_requests@, t) == 0 {
                Some(ErrorCode::NoClaimableAmount)
            } else {
                None
            },
        }
    }
}

/// The two records after a claim at time `now`: the claimed amount leaves
/// the unstaking ledger for the vested ledger on both sides, the claimed
/// requests are marked up, and fully claimed slots are freed.
pub open spec fn claim_vested_applied(
    v0: StakeVault,
    u0: UserStake,
    v1: StakeVault,
    u1: UserStake,
    request_id: Option<u8>,
    now: i64,
) -> bool {
    let t = now as int;
    let c = claim_amount(u0, request_id, t);
    &&& u1.unstake_requests@ == cleanup_requests(requests_after_claim(u0.unstake_requests@, request_id, t))
    &&& u1 == (UserStake {
        vested_stake_amount: (u0.vested_stake_amount + c) as u64,
        unstake_requests: u1.unstake_requests,
        last_update_timestamp: now,
        ..u0
    })
    &&& v1 == (StakeVault {
        stake_stats: StakeStats {
            unstaking_amount: (v0.stake_stats.unstaking_amount - c) as u64,
            total_vested: (v0.stake_stats.total_vested + c) as u64,
            ..v0.stake_stats
        },
        ..v0
    })
}

/// Claim vested tokens: from one request if an id is given, else from all.
/// The claimed amount moves unstaking to vested on both sides; the user's
/// active stake and reward state are untouched.  Returns the amount the
/// host must transfer out.
pub fn claim_vested(
    vault: &mut StakeVault,
    user_stake: &mut UserStake,
    request_id: Option<u8>,
    now: i64,
) -> (r: Result<u64, ErrorCode>)
    requires
        state_wf(*old(vault), *old(user_stake)),
    ensures
        state_wf(*final(vault), *final(user_stake)),
        match claim_vested_err(*old(vault), *old(user_stake), request_id, now as int) {
            Some(e) => {
                &&& r == Err::<u64, ErrorCode>(e)
                &&& *final(vault) == *old(vault)
                &&& *final(user_stake) == *old(user_stake)
            },
            None => {
                &&& r == Ok::<u64, ErrorCode>(
                    claim_amount(*old(user_stake), request_id, now as int) as u64,
                )
                &&& claim_vested_applied(
                    *old(vault),
                    *old(user_stake),
                    *final(vault),
                    *final(user_stake),
                    request_id,
                    now,
                )
            },
        },
{
    if !vault.permissions.allow_withdrawals {
        return Err(ErrorCode::WithdrawalsDisabled);
    }
    let ghost s0 = user_stake.unstake_requests@;
    let ghost t = now as int;
    let ghost c = claim_amount(*user_stake, request_id, t);
    let total_claimable: u64;
    match request_id {
        Some(id) => {
            let idx = id as usize;
            if idx >= MAX_UNSTAKE_REQUESTS {
                return Err(ErrorCode::InvalidUnstakeRequestId);
            }
            let req = user_stake.unstake_requests[idx];
            if req.is_empty() {
                return Err(ErrorCode::InvalidUnstakeRequestId);
            }
            let claimable = req.get_claimable_amount(now);
            if claimable == 0 {
                return Err(ErrorCode::NoVestedTokens);
            }
            proof {
                lemma_claimed_up(req, t);
                lemma_sum_remaining_element(s0, idx as int);
                lemma_sum_remaining_update(s0, idx as int, claimed_up(req, t));
                lemma_sum_remaining_nonneg(s0);
            }
            let updated = UnstakeRequest {
                total_amount: req.total_amount,
                claimed_amount: req.claimed_amount + claimable,
                start_timestamp: req.start_timestamp,
                end_timestamp: req.end_timestamp,
            };
            user_stake.unstake_requests[idx] = updated;
            total_claimable = claimable;
            proof {
                assert(user_stake.unstake_requests@ == requests_after_claim(s0, request_id, t));
                assert(sum_remaining(user_stake.unstake_requests@) == sum_remaining(s0) - c);
                assert(all_wf(user_stake.unstake_requests@));
                assert(0 <= c <= sum_remaining(s0));
            }
        },
        None => {
            let total = user_stake.get_total_claimable(now);
            if total == 0 {
                return Err(ErrorCode::NoClaimableAmount);
            }
            let ghost u_before = *user_stake;
            let n = user_stake.unstake_requests.len();
            let mut i: usize = 0;
            while i < n
                invariant
                    i <= n,
                    n == s0.len(),
                    all_wf(s0),
                    t == now as int,
                    user_stake.unstake_requests@.len() == n,
                    forall|j: int|
                        0 <= j < i ==> user_stake.unstake_requests@[j] == claimed_up(s0[j], t),
                    forall|j: int| i <= j < n ==> user_stake.unstake_requests@[j] == s0[j],
                    *user_stake == (UserStake {
                        unstake_requests: user_stake.unstake_requests,
                        ..u_before
                    }),
                decreases n - i,
            {
                let req = user_stake.unstake_requests[i];
                proof {
                    assert(req == s0[i as int]);
                    assert(s0[i as int].wf());
                    lemma_claimed_up(req, t);
                }
                let claimable = req.get_claimable_amount(now);
                if claimable > 0 {
                    let updated = UnstakeRequest {
                        total_amount: req.total_amount,
                        claimed_amount: req.claimed_amount + claimable,
                        start_timestamp: req.start_timestamp,
                        end_timestamp: req.end_timestamp,
                    };
                    user_stake.unstake_requests[i] = updated;
                }
                i = i + 1;
            }
            total_claimable = total;
            proof {
                assert(user_stake.unstake_requests@ =~= claim_all_requests(s0, t));
                lemma_claim_all_sum(s0, t);
                lemma_sum_claimable_le_remaining(s0, t);
                assert(user_stake.unstake_requests@ == requests_after_claim(s0, request_id, t));
                assert(sum_remaining(user_stake.unstake_requests@) == sum_remaining(s0) - c);
                assert(all_wf(user_stake.unstake_requests@));
                assert(0 <= c <= sum_remaining(s0));
            }
        },
    }
    let ghost after = user_stake.unstake_requests@;
    user_stake.cleanup_claimed_requests();
    proof {
        assert(user_stake.unstake_requests@ =~= cleanup_requests(after));
        lemma_cleanup_sum(after);
    }
    user_stake.vested_stake_amount = user_stake.vested_stake_amount + total_claimable;
    user_stake.last_update_timestamp = now;
    vault.stake_stats.unstaking_amount = vault.stake_stats.unstaking_amount - total_claimable;
    vault.stake_stats.total_vested = vault.stake_stats.total_vested + total_claimable;
    Ok(total_claimable)
}

} // verus!
