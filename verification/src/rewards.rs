//! The reward accumulator: the global reward-per-token watermark arithmetic
//! and the per-user reconciliation against it.
//!
//! `refresh_user_rewards` must run before any change of a user's active
//! stake, and `update_reward_snapshot_after_stake_change` immediately after,
//! so that accrued rewards are measured and the snapshot re-based at every
//! stake mutation.

use vstd::prelude::*;
use vstd::arithmetic::div_mod::lemma_fundamental_div_mod;
use vstd::arithmetic::div_mod::lemma_mod_division_less_than_divisor;
use crate::constants::PRECISION;
use crate::error::ErrorCode;
use crate::stake_vault::StakeVault;
use crate::user_stake::UserRewardState;
use crate::user_stake::UserStake;

verus! {

/// A stake's watermark against an accumulator value: the reward value owed
/// to that much stake since the vault's inception, in whole tokens.
pub open spec fn watermark_int(active: int, reward_per_token: int) -> int {
    (active * reward_per_token) / (PRECISION as int)
}

/// Whether the wide multiplication inside the watermark overflows.
pub open spec fn watermark_overflow(active: u64, reward_per_token: u128) -> bool {
    active * reward_per_token > u128::MAX
}

/// The user's current watermark against the vault's accumulator.
pub open spec fn user_watermark(u: UserStake, v: StakeVault) -> int {
    watermark_int(u.active_stake_amount as int, v.reward_state.reward_per_token_staked as int)
}

/// Rewards newly accrued since the stored snapshot, floored at zero: both
/// watermarks are taken at the same stake amount, so under correct
/// sequencing the difference is never negative; the floor is defensive.
pub open spec fn refresh_delta(u: UserStake, v: StakeVault) -> int {
    if user_watermark(u, v) >= u.reward_state.reward_snapshot {
        user_watermark(u, v) - u.reward_state.reward_snapshot
    } else {
        0
    }
}

/// Whether refreshing this user against this vault hits checked-arithmetic
/// overflow: in the watermark product, or crediting the accrued delta.
pub open spec fn refresh_overflow(u: UserStake, v: StakeVault) -> bool {
    ||| watermark_overflow(u.active_stake_amount, v.reward_state.reward_per_token_staked)
    ||| u.reward_state.unclaimed_rewards + refresh_delta(u, v) > u64::MAX
}

/// The user record after a refresh: accrued rewards credited and the
/// snapshot moved up to the current watermark.
pub open spec fn refreshed(u: UserStake, v: StakeVault) -> UserStake {
    UserStake {
        reward_state: UserRewardState {
            reward_snapshot: user_watermark(u, v) as u128,
            unclaimed_rewards: (u.reward_state.unclaimed_rewards + refresh_delta(u, v)) as u64,
            total_claimed: u.reward_state.total_claimed,
        },
        ..u
    }
}

/// Whether re-snapshotting this user against this vault overflows.
pub open spec fn resnap_overflow(u: UserStake, v: StakeVault) -> bool {
    watermark_overflow(u.active_stake_amount, v.reward_state.reward_per_token_staked)
}

/// The user record after a re-snapshot: the snapshot recomputed at the
/// current stake amount, accrued rewards untouched.
pub open spec fn resnapped(u: UserStake, v: StakeVault) -> UserStake {
    UserStake {
        reward_state: UserRewardState {
            reward_snapshot: user_watermark(u, v) as u128,
            ..u.reward_state
        },
        ..u
    }
}

/// Multiply two wide integers, reporting whether the product fits.
pub fn checked_mul_u128(a: u128, b: u128) -> (r: Option<u128>)
    ensures
        match r {
            Some(p) => a * b <= u128::MAX && p == a * b,
            None => a * b > u128::MAX,
        },
{
    proof {
        let m = u128::MAX as int;
        let av = a as int;
        let bv = b as int;
        if bv != 0 {
            lemma_fundamental_div_mod(m, bv);
            lemma_mod_division_less_than_divisor(m, bv);
            if av > m / bv {
                assert(av * bv > m) by (nonlinear_arith)
                    requires
                        av >= m / bv + 1,
                        m == bv * (m / bv) + m % bv,
                        0 <= m % bv < bv,
                ;
            } else {
                assert(av * bv <= m) by (nonlinear_arith)
                    requires
                        0 <= av <= m / bv,
                        m == bv * (m / bv) + m % bv,
                        0 <= m % bv < bv,
                ;
            }
        }
    }
    if b != 0 && a > u128::MAX / b {
        None
    } else {
        Some(a * b)
    }
}

/// Compute a stake's watermark, reporting overflow of the wide product.
pub fn compute_watermark(active: u64, reward_per_token: u128) -> (r: Result<u128, ErrorCode>)
    ensures
        match r {
            Ok(w) => !watermark_overflow(active, reward_per_token) && w == watermark_int(
                active as int,
                reward_per_token as int,
            ),
            Err(e) => watermark_overflow(active, reward_per_token) && e == ErrorCode::MathOverflow,
        },
{
    match checked_mul_u128(active as u128, reward_per_token) {
        Some(p) => Ok(p / PRECISION),
        None => Err(ErrorCode::MathOverflow),
    }
}

/// Compute the refreshed reward fields of a user without mutating anything:
/// the new snapshot and the new unclaimed balance.
pub fn refreshed_values(user_stake: &UserStake, stake_vault: &StakeVault) -> (r: Result<
    (u128, u64),
    ErrorCode,
>)
    ensures
        match r {
            Ok(p) => {
                &&& !refresh_overflow(*user_stake, *stake_vault)
                &&& p.0 == refreshed(*user_stake, *stake_vault).reward_state.reward_snapshot
                &&& p.1 == refreshed(*user_stake, *stake_vault).reward_state.unclaimed_rewards
            },
            Err(e) => refresh_overflow(*user_stake, *stake_vault) && e == ErrorCode::MathOverflow,
        },
{
    let w = match compute_watermark(
        user_stake.active_stake_amount,
        stake_vault.reward_state.reward_per_token_staked,
    ) {
        Ok(w) => w,
        Err(e) => {
            return Err(e);
        },
    };
    let snap = user_stake.reward_state.reward_snapshot;
    let delta: u128 = if w >= snap {
        w - snap
    } else {
        0
    };
    let unclaimed = user_stake.reward_state.unclaimed_rewards;
    if delta > (u64::MAX - unclaimed) as u128 {
        return Err(ErrorCode::MathOverflow);
    }
    Ok((w, unclaimed + (delta as u64)))
}

/// Refresh a user's reward state against the current global accumulator.
/// Must be called before any change of the active stake amount.
pub fn refresh_user_rewards(user_stake: &mut UserStake, stake_vault: &StakeVault) -> (r: Result<
    (),
    ErrorCode,
>)
    ensures
        refresh_overflow(*old(user_stake), *stake_vault) ==> {
            &&& r == Err::<(), ErrorCode>(ErrorCode::MathOverflow)
            &&& *final(user_stake) == *old(user_stake)
        },
        !refresh_overflow(*old(user_stake), *stake_vault) ==> {
            &&& r == Ok::<(), ErrorCode>(())
            &&& *final(user_stake) == refreshed(*old(user_stake), *stake_vault)
        },
{
    match refreshed_values(user_stake, stake_vault) {
        Ok((snap, unclaimed)) => {
            user_stake.reward_state.reward_snapshot = snap;
            user_stake.reward_state.unclaimed_rewards = unclaimed;
            Ok(())
        },
        Err(e) => Err(e),
    }
}

/// Re-base a user's reward snapshot at the current stake amount.  Must be
/// called immediately after the active stake amount changes; leaves the
/// unclaimed balance untouched.
pub fn update_reward_snapshot_after_stake_change(
    user_stake: &mut UserStake,
    stake_vault: &StakeVault,
) -> (r: Result<(), ErrorCode>)
    ensures
        resnap_overflow(*old(user_stake), *stake_vault) ==> {
            &&& r == Err::<(), ErrorCode>(ErrorCode::MathOverflow)
            &&& *final(user_stake) == *old(user_stake)
        },
        !resnap_overflow(*old(user_stake), *stake_vault) ==> {
            &&& r == Ok::<(), ErrorCode>(())
            &&& *final(user_stake) == resnapped(*old(user_stake), *stake_vault)
        },
{
    match compute_watermark(
        user_stake.active_stake_amount,
        stake_vault.reward_state.reward_per_token_staked,
    ) {
        Ok(w) => {
            user_stake.reward_state.reward_snapshot = w;
            Ok(())
        },
        Err(e) => Err(e),
    }
}

} // verus!
