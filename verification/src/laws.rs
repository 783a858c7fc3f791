//! Laws of the engine that span more than one operation, each stated over
//! the same spec functions the operations' contracts use, and proved here.
//!
//! Conservation of the vault's stake ledgers is not restated here: it is the
//! `wf` clause that every operation requires and ensures.

use vstd::prelude::*;
use vstd::arithmetic::div_mod::lemma_div_nonincreasing;
use vstd::arithmetic::div_mod::lemma_div_is_ordered;
use vstd::arithmetic::div_mod::lemma_div_multiples_vanish;
use vstd::arithmetic::div_mod::lemma_div_pos_is_pos;
use vstd::arithmetic::div_mod::lemma_fundamental_div_mod;
use vstd::arithmetic::div_mod::lemma_hoist_over_denominator;
use vstd::arithmetic::div_mod::lemma_mod_division_less_than_divisor;
use vstd::arithmetic::mul::lemma_mul_inequality;
use vstd::arithmetic::mul::lemma_mul_is_commutative;
use vstd::arithmetic::mul::lemma_mul_is_distributive_add;
use vstd::arithmetic::mul::lemma_mul_is_distributive_add_other_way;
use vstd::arithmetic::mul::lemma_mul_inequality_converse;
use vstd::arithmetic::mul::lemma_mul_strict_inequality_converse;
use vstd::arithmetic::mul::lemma_mul_nonnegative;
use crate::constants::PRECISION;
use crate::rewards::refresh_overflow;
use crate::rewards::refreshed;
use crate::rewards::user_watermark;
use crate::rewards::watermark_int;
use crate::stake_vault::StakeVault;
use crate::user_stake::UnstakeRequest;
use crate::user_stake::UserStake;
use crate::operations::cancel_unstake_applied;
use crate::operations::cancel_unstake_err;
use crate::operations::state_wf;
use crate::operations::unstake_request_applied;
use crate::operations::unstake_request_err;

verus! {

/// Vesting is monotone in time: a request never has less vested at a later
/// time, and at its end timestamp exactly its whole amount has vested.
pub proof fn lemma_vested_monotonic(r: UnstakeRequest, t1: int, t2: int)
    requires
        r.wf(),
        t1 <= t2,
    ensures
        r.vested_at(t1) <= r.vested_at(t2),
        r.vested_at(r.end_timestamp as int) == r.total_amount,
{
    r.lemma_vested_bounds(t1);
    r.lemma_vested_bounds(t2);
    if r.total_amount != 0 && t1 < r.end_timestamp && t1 > r.start_timestamp && t2
        < r.end_timestamp && t2 > r.start_timestamp {
        let total = r.total_amount as int;
        let duration = r.end_timestamp - r.start_timestamp;
        lemma_mul_inequality(t1 - r.start_timestamp, t2 - r.start_timestamp, total);
        lemma_mul_is_commutative(t1 - r.start_timestamp, total);
        lemma_mul_is_commutative(t2 - r.start_timestamp, total);
        lemma_div_is_ordered(
            total * (t1 - r.start_timestamp),
            total * (t2 - r.start_timestamp),
            duration,
        );
    }
}

/// Refreshing is idempotent: a second refresh against the same vault, with
/// no stake change in between, moves nothing — the unclaimed balance and the
/// snapshot both stay put.
pub proof fn lemma_refresh_idempotent(u: UserStake, v: StakeVault)
    requires
        !refresh_overflow(u, v),
    ensures
        !refresh_overflow(refreshed(u, v), v),
        refreshed(refreshed(u, v), v) == refreshed(u, v),
{
    let w = user_watermark(u, v);
    lemma_div_pos_is_pos(
        u.active_stake_amount * v.reward_state.reward_per_token_staked,
        PRECISION as int,
    );
    lemma_div_nonincreasing(
        u.active_stake_amount * v.reward_state.reward_per_token_staked,
        PRECISION as int,
    );
    assert(0 <= w <= u128::MAX);
    let u1 = refreshed(u, v);
    assert(user_watermark(u1, v) == w);
    assert(u1.reward_state.reward_snapshot == w);
}

/// Round trip: an unstake request followed by cancelling that same request
/// restores the user's stake amounts, the request arena, and every vault
/// stake statistic exactly; only reward bookkeeping and timestamps move.
pub proof fn lemma_unstake_cancel_round_trip(
    v0: StakeVault,
    u0: UserStake,
    v1: StakeVault,
    u1: UserStake,
    v2: StakeVault,
    u2: UserStake,
    amount: u64,
    now1: i64,
    now2: i64,
    idx: u8,
)
    requires
        state_wf(v0, u0),
        unstake_request_err(v0, u0, amount, now1) is None,
        unstake_request_applied(v0, u0, v1, u1, amount, now1, idx as int),
        cancel_unstake_err(v1, u1, idx) is None,
        cancel_unstake_applied(v1, u1, v2, u2, idx, now2),
    ensures
        u2.active_stake_amount == u0.active_stake_amount,
        u2.vested_stake_amount == u0.vested_stake_amount,
        u2.unstake_requests@ == u0.unstake_requests@,
        v2.stake_stats == v0.stake_stats,
{
    assert(u0.unstake_requests@[idx as int].wf());
    assert(u0.unstake_requests@[idx as int] == UnstakeRequest::spec_empty());
    assert(u2.unstake_requests@ =~= u0.unstake_requests@);
}

/// Sum of a sequence of stake amounts.
pub open spec fn sum_stakes(s: Seq<u64>) -> int
    decreases s.len(),
{
    if s.len() == 0 {
        0
    } else {
        sum_stakes(s.drop_last()) + s.last()
    }
}

/// Sum, over a sequence of stakers, of the reward each one's refresh
/// credits when the accumulator rises from `rpt` to `rpt + inc`.
pub open spec fn sum_deltas(s: Seq<u64>, rpt: int, inc: int) -> int
    decreases s.len(),
{
    if s.len() == 0 {
        0
    } else {
        sum_deltas(s.drop_last(), rpt, inc) + (watermark_int(s.last() as int, rpt + inc)
            - watermark_int(s.last() as int, rpt))
    }
}

/// When a staker's watermark divides evenly at the old accumulator, the
/// refresh delta of an accumulator rise is exactly the floored share.
proof fn lemma_delta_exact(s: int, rpt: int, inc: int)
    requires
        0 <= s,
        0 <= rpt,
        0 <= inc,
        (s * rpt) % (PRECISION as int) == 0,
    ensures
        watermark_int(s, rpt + inc) - watermark_int(s, rpt) == (s * inc) / (PRECISION as int),
{
    let p = PRECISION as int;
    let k = (s * rpt) / p;
    lemma_fundamental_div_mod(s * rpt, p);
    assert(s * rpt == p * k);
    lemma_mul_is_distributive_add(s, rpt, inc);
    assert(s * (rpt + inc) == p * k + s * inc);
    lemma_mul_is_commutative(k, p);
    lemma_hoist_over_denominator(s * inc, k, PRECISION as nat);
    assert((s * inc) / p + k == (s * inc + k * p) / p);
    lemma_div_multiples_vanish(k, p);
    assert(watermark_int(s, rpt) == k);
}

/// Summed over all stakers, the floor losses of one accumulator rise stay
/// between zero and one unit short per staker:
/// `0 <= total*inc - PRECISION*sum_deltas <= len*(PRECISION-1)`.
proof fn lemma_sum_deltas_residues(s: Seq<u64>, rpt: int, inc: int)
    requires
        0 <= rpt,
        0 <= inc,
        forall|i: int| 0 <= i < s.len() ==> ((#[trigger] s[i]) * rpt) % (PRECISION as int) == 0,
    ensures
        0 <= sum_stakes(s) * inc - (PRECISION as int) * sum_deltas(s, rpt, inc),
        sum_stakes(s) * inc - (PRECISION as int) * sum_deltas(s, rpt, inc) <= s.len() * (
        (PRECISION as int) - 1),
    decreases s.len(),
{
    let p = PRECISION as int;
    if s.len() == 0 {
        assert(sum_stakes(s) * inc == 0) by (nonlinear_arith)
            requires
                sum_stakes(s) == 0,
        ;
        assert(s.len() * (p - 1) == 0) by (nonlinear_arith)
            requires
                s.len() == 0,
        ;
    } else {
        let rest = s.drop_last();
        let a = s.last() as int;
        assert(forall|i: int|
            0 <= i < rest.len() ==> ((#[trigger] rest[i]) * rpt) % p == 0) by {
            assert(forall|i: int| 0 <= i < rest.len() ==> rest[i] == s[i]);
        }
        lemma_sum_deltas_residues(rest, rpt, inc);
        assert((s.last() * rpt) % p == 0);
        lemma_delta_exact(a, rpt, inc);
        let q = (a * inc) / p;
        let r = (a * inc) % p;
        lemma_mul_nonnegative(a, inc);
        lemma_fundamental_div_mod(a * inc, p);
        lemma_mod_division_less_than_divisor(a * inc, p);
        assert(a * inc == p * q + r);
        lemma_mul_is_distributive_add_other_way(inc, sum_stakes(rest), a);
        assert((sum_stakes(rest) + a) * inc == sum_stakes(rest) * inc + a * inc);
        lemma_mul_is_distributive_add(p, sum_deltas(rest, rpt, inc), q);
        assert(p * (sum_deltas(rest, rpt, inc) + q) == p * sum_deltas(rest, rpt, inc) + p * q);
        assert(s.len() * (p - 1) == rest.len() * (p - 1) + (p - 1)) by (nonlinear_arith)
            requires
                s.len() == rest.len() + 1,
        ;
    }
}

/// Reward fairness with bounded rounding: one distribution of `pending`
/// over stakers whose stakes sum to `active`, each reconciled exactly at
/// the old accumulator value, credits in total at most `pending` and at
/// least `pending` minus one unit per staker.
///
/// The increment `(pending * PRECISION) / active` is the one `distribute`
/// folds into the accumulator, and each staker's summand is the delta its
/// next refresh credits.
pub proof fn lemma_reward_fairness(stakes: Seq<u64>, rpt: int, pending: int, active: int)
    requires
        active == sum_stakes(stakes),
        0 < active <= PRECISION,
        0 < pending,
        0 <= rpt,
        forall|i: int|
            0 <= i < stakes.len() ==> ((#[trigger] stakes[i]) * rpt) % (PRECISION as int) == 0,
    ensures
        pending - stakes.len() <= sum_deltas(
            stakes,
            rpt,
            (pending * (PRECISION as int)) / active,
        ) <= pending,
{
    let p = PRECISION as int;
    let inc = (pending * p) / active;
    let n = stakes.len() as int;
    let total = sum_deltas(stakes, rpt, inc);
    lemma_mul_nonnegative(pending, p);
    lemma_div_pos_is_pos(pending * p, active);
    lemma_sum_deltas_residues(stakes, rpt, inc);
    let rr = (pending * p) % active;
    lemma_fundamental_div_mod(pending * p, active);
    lemma_mod_division_less_than_divisor(pending * p, active);
    assert(pending * p == active * inc + rr);
    if n == 0 {
        assert(sum_stakes(stakes) == 0);
        assert(false);
    }
    // Upper bound: PRECISION * total <= active * inc <= pending * PRECISION.
    assert(p * total <= active * inc);
    lemma_mul_is_commutative(pending, p);
    assert(total * p <= pending * p) by (nonlinear_arith)
        requires
            p * total <= active * inc,
            active * inc + rr == pending * p,
            rr >= 0,
    ;
    lemma_mul_inequality_converse(total, pending, p);
    // Lower bound: PRECISION * total > PRECISION * (pending - n - 1).
    assert(active * inc - p * total <= n * (p - 1));
    assert(n * (p - 1) == n * p - n) by (nonlinear_arith);
    assert((pending - n - 1) * p == pending * p - n * p - p) by (nonlinear_arith);
    assert((pending - n - 1) * p < total * p) by (nonlinear_arith)
        requires
            active * inc - p * total <= n * p - n,
            active * inc + rr == pending * p,
            0 <= rr < active,
            active <= p,
            1 <= n,
            (pending - n - 1) * p == pending * p - n * p - p,
            p * total == total * p,
            p == PRECISION as int,
    ;
    lemma_mul_strict_inequality_converse(pending - n - 1, total, p);
}

} // verus!
