//! Per-user staking state: unstake requests with linear vesting, the bounded
//! arena of request slots, and the user's reward-reconciliation record.

use vstd::prelude::*;
use vstd::arithmetic::div_mod::lemma_div_by_multiple;
use vstd::arithmetic::div_mod::lemma_div_is_ordered;
use vstd::arithmetic::div_mod::lemma_div_pos_is_pos;
use vstd::arithmetic::mul::lemma_mul_inequality;
use vstd::arithmetic::mul::lemma_mul_upper_bound;
use crate::constants::MAX_UNSTAKE_REQUESTS;

verus! {

/// One unstake request, unlocking linearly between its start and end
/// timestamps.  A request with `total_amount == 0` is an empty arena slot.
#[derive(Clone, Copy, Debug, PartialEq, Eq, Structural)]
pub struct UnstakeRequest {
    /// Total amount requested for unstaking.
    pub total_amount: u64,
    /// Amount already claimed from this request.
    pub claimed_amount: u64,
    /// Timestamp when the unstake request was initiated.
    pub start_timestamp: i64,
    /// Timestamp when the vesting period ends, fixed at creation.
    pub end_timestamp: i64,
}

impl UnstakeRequest {
    /// The empty slot sentinel: the all-zero record.
    pub open spec fn spec_empty() -> UnstakeRequest {
        UnstakeRequest { total_amount: 0, claimed_amount: 0, start_timestamp: 0, end_timestamp: 0 }
    }

    /// Validity of one slot: nothing claimed beyond the total, a non-negative
    /// vesting window, and empty slots are exactly the zero record.
    pub open spec fn wf(self) -> bool {
        &&& self.claimed_amount <= self.total_amount
        &&& 0 <= self.start_timestamp <= self.end_timestamp
        &&& (self.total_amount == 0 ==> self == UnstakeRequest::spec_empty())
    }

    /// Amount unlocked by time `t`: all of it from `end_timestamp` on, nothing
    /// at or before `start_timestamp`, and a linear share in between.
    pub open spec fn vested_at(self, t: int) -> int {
        if self.total_amount == 0 {
            0
        } else if t >= self.end_timestamp {
            self.total_amount as int
        } else if t <= self.start_timestamp {
            0
        } else {
            (self.total_amount * (t - self.start_timestamp)) / (self.end_timestamp
                - self.start_timestamp)
        }
    }

    /// Amount unlocked but not yet claimed by time `t`, floored at zero.
    pub open spec fn claimable_at(self, t: int) -> int {
        if self.vested_at(t) >= self.claimed_amount {
            self.vested_at(t) - self.claimed_amount
        } else {
            0
        }
    }

    /// Amount not yet claimed, whether unlocked or not.
    pub open spec fn remaining(self) -> int {
        self.total_amount - self.claimed_amount
    }

    /// The vested amount stays between 0 and the total.
    pub proof fn lemma_vested_bounds(self, t: int)
        requires
            self.wf(),
        ensures
            0 <= self.vested_at(t) <= self.total_amount,
    {
        if self.total_amount != 0 && t < self.end_timestamp && t > self.start_timestamp {
            let total = self.total_amount as int;
            let elapsed = t - self.start_timestamp;
            let duration = self.end_timestamp - self.start_timestamp;
            lemma_div_pos_is_pos(total * elapsed, duration);
            lemma_mul_inequality(elapsed, duration, total);
            assert(total * elapsed == elapsed * total) by (nonlinear_arith);
            assert(total * duration == duration * total) by (nonlinear_arith);
            lemma_div_is_ordered(total * elapsed, total * duration, duration);
            lemma_div_by_multiple(total, duration);
        }
    }

    /// Calculate the amount that has vested (unlocked) by the given time.
    pub fn get_vested_amount(&self, current_timestamp: i64) -> (r: u64)
        requires
            self.wf(),
        ensures
            r == self.vested_at(current_timestamp as int),
    {
        if self.total_amount == 0 {
            return 0;
        }
        if current_timestamp >= self.end_timestamp {
            return self.total_amount;
        }
        if current_timestamp <= self.start_timestamp {
            return 0;
        }
        let elapsed: u128 = (current_timestamp - self.start_timestamp) as u128;
        let duration: u128 = (self.end_timestamp - self.start_timestamp) as u128;
        proof {
            lemma_mul_upper_bound(
                self.total_amount as int,
                u64::MAX as int,
                elapsed as int,
                i64::MAX as int,
            );
        }
        let vested_wide: u128 = (self.total_amount as u128) * elapsed;
        let vested: u128 = vested_wide / duration;
        proof {
            self.lemma_vested_bounds(current_timestamp as int);
        }
        vested as u64
    }

    /// Calculate the claimable amount (vested but not yet claimed).
    pub fn get_claimable_amount(&self, current_timestamp: i64) -> (r: u64)
        requires
            self.wf(),
        ensures
            r == self.claimable_at(current_timestamp as int),
    {
        let vested = self.get_vested_amount(current_timestamp);
        if vested >= self.claimed_amount {
            vested - self.claimed_amount
        } else {
            0
        }
    }

    /// Check whether this request slot is empty/unused.
    pub fn is_empty(&self) -> (r: bool)
        ensures
            r == (self.total_amount == 0),
    {
        self.total_amount == 0
    }

    /// Check whether this request is fully claimed.
    pub fn is_fully_claimed(&self) -> (r: bool)
        ensures
            r == (self.total_amount > 0 && self.claimed_amount >= self.total_amount),
    {
        self.total_amount > 0 && self.claimed_amount >= self.total_amount
    }
}

impl Default for UnstakeRequest {
    /// The empty slot record.
    fn default() -> (r: Self)
        ensures
            r == UnstakeRequest::spec_empty(),
    {
        UnstakeRequest { total_amount: 0, claimed_amount: 0, start_timestamp: 0, end_timestamp: 0 }
    }
}

/// Sum of the not-yet-claimed amounts over a sequence of requests.
pub open spec fn sum_remaining(s: Seq<UnstakeRequest>) -> int
    decreases s.len(),
{
    if s.len() == 0 {
        0
    } else {
        sum_remaining(s.drop_last()) + s.last().remaining()
    }
}

/// Sum of the claimable amounts at time `t` over a sequence of requests.
pub open spec fn sum_claimable(s: Seq<UnstakeRequest>, t: int) -> int
    decreases s.len(),
{
    if s.len() == 0 {
        0
    } else {
        sum_claimable(s.drop_last(), t) + s.last().claimable_at(t)
    }
}

/// All slots of a sequence are well formed.
pub open spec fn all_wf(s: Seq<UnstakeRequest>) -> bool {
    forall|i: int| 0 <= i < s.len() ==> (#[trigger] s[i]).wf()
}

/// Extending a prefix by one element adds that element's remainder.
pub proof fn lemma_sum_remaining_take_step(s: Seq<UnstakeRequest>, i: int)
    requires
        0 <= i < s.len(),
    ensures
        sum_remaining(s.take(i + 1)) == sum_remaining(s.take(i)) + s[i].remaining(),
{
    assert(s.take(i + 1).drop_last() =~= s.take(i));
    assert(s.take(i + 1).last() == s[i]);
}

/// Extending a prefix by one element adds that element's claimable amount.
pub proof fn lemma_sum_claimable_take_step(s: Seq<UnstakeRequest>, t: int, i: int)
    requires
        0 <= i < s.len(),
    ensures
        sum_claimable(s.take(i + 1), t) == sum_claimable(s.take(i), t) + s[i].claimable_at(t),
{
    assert(s.take(i + 1).drop_last() =~= s.take(i));
    assert(s.take(i + 1).last() == s[i]);
}

/// A sum of well-formed remainders is non-negative.
pub proof fn lemma_sum_remaining_nonneg(s: Seq<UnstakeRequest>)
    requires
        all_wf(s),
    ensures
        sum_remaining(s) >= 0,
    decreases s.len(),
{
    if s.len() > 0 {
        assert(all_wf(s.drop_last()));
        lemma_sum_remaining_nonneg(s.drop_last());
    }
}

/// Each well-formed element's remainder is at most the whole sum.
pub proof fn lemma_sum_remaining_element(s: Seq<UnstakeRequest>, i: int)
    requires
        all_wf(s),
        0 <= i < s.len(),
    ensures
        s[i].remaining() <= sum_remaining(s),
    decreases s.len(),
{
    if i == s.len() - 1 {
        assert(all_wf(s.drop_last()));
        lemma_sum_remaining_nonneg(s.drop_last());
    } else {
        assert(all_wf(s.drop_last()));
        lemma_sum_remaining_element(s.drop_last(), i);
    }
}

/// Replacing one element changes the sum by the difference of remainders.
pub proof fn lemma_sum_remaining_update(s: Seq<UnstakeRequest>, i: int, r: UnstakeRequest)
    requires
        0 <= i < s.len(),
    ensures
        sum_remaining(s.update(i, r)) == sum_remaining(s) - s[i].remaining() + r.remaining(),
    decreases s.len(),
{
    let su = s.update(i, r);
    if i == s.len() - 1 {
        assert(su.drop_last() =~= s.drop_last());
        assert(su.last() == r);
    } else {
        assert(su.drop_last() =~= s.drop_last().update(i, r));
        assert(su.last() == s.last());
        lemma_sum_remaining_update(s.drop_last(), i, r);
    }
}

/// At any time the claimable sum stays within the remaining sum.
pub proof fn lemma_sum_claimable_le_remaining(s: Seq<UnstakeRequest>, t: int)
    requires
        all_wf(s),
    ensures
        0 <= sum_claimable(s, t) <= sum_remaining(s),
    decreases s.len(),
{
    if s.len() > 0 {
        assert(all_wf(s.drop_last()));
        lemma_sum_claimable_le_remaining(s.drop_last(), t);
        s.last().lemma_vested_bounds(t);
    }
}

/// A prefix's remaining sum stays within the whole sequence's.
pub proof fn lemma_sum_remaining_take_le(s: Seq<UnstakeRequest>, i: int)
    requires
        all_wf(s),
        0 <= i <= s.len(),
    ensures
        sum_remaining(s.take(i)) <= sum_remaining(s),
    decreases s.len() - i,
{
    if i == s.len() {
        assert(s.take(i) =~= s);
    } else {
        lemma_sum_remaining_take_step(s, i);
        lemma_sum_remaining_take_le(s, i + 1);
    }
}

/// Tracks the user's reward accumulation state.
#[derive(Clone, Copy, Debug, PartialEq, Eq, Structural)]
pub struct UserRewardState {
    /// The user's watermark at the last reconciliation: stake times the
    /// global accumulator, divided by the precision constant.
    pub reward_snapshot: u128,
    /// Rewards accrued to this user and not yet collected.
    pub unclaimed_rewards: u64,
    /// Total rewards collected by this user, cumulative.
    pub total_claimed: u64,
}

/// Per-user staking record: active stake, the bounded arena of unstake
/// requests, and the reward-reconciliation state.
#[derive(Clone, Debug)]
pub struct UserStake {
    /// Owner identity of this record, as the host names it.
    pub owner: u64,
    /// Whether the record has seen its first deposit.
    pub is_initialized: bool,
    /// Currently staked tokens, earning rewards.
    pub active_stake_amount: u64,
    /// Tokens claimed from linear vesting, cumulative, tracking only.
    pub vested_stake_amount: u64,
    /// Fixed-capacity arena of unstake requests; empty slots are zeroed.
    pub unstake_requests: Vec<UnstakeRequest>,
    /// The user's reward tracking state.
    pub reward_state: UserRewardState,
    /// Last update timestamp.
    pub last_update_timestamp: i64,
}

impl UserStake {
    /// Validity of a user record: exactly the fixed number of slots, each
    /// slot well formed, and the unclaimed remainders summing within `u64`.
    pub open spec fn wf(self) -> bool {
        &&& self.unstake_requests@.len() == MAX_UNSTAKE_REQUESTS
        &&& all_wf(self.unstake_requests@)
        &&& sum_remaining(self.unstake_requests@) <= u64::MAX
    }

    /// A fresh record for `owner`: no stake, no requests, no rewards.
    pub fn new(owner: u64) -> (r: UserStake)
        ensures
            r.wf(),
            r.owner == owner,
            r.is_initialized,
            r.active_stake_amount == 0,
            r.vested_stake_amount == 0,
            sum_remaining(r.unstake_requests@) == 0,
            forall|i: int|
                0 <= i < MAX_UNSTAKE_REQUESTS ==> r.unstake_requests@[i]
                    == UnstakeRequest::spec_empty(),
            r.reward_state == (UserRewardState {
                reward_snapshot: 0,
                unclaimed_rewards: 0,
                total_claimed: 0,
            }),
            r.last_update_timestamp == 0,
    {
        let mut slots: Vec<UnstakeRequest> = Vec::new();
        let mut i: usize = 0;
        while i < MAX_UNSTAKE_REQUESTS
            invariant
                i <= MAX_UNSTAKE_REQUESTS,
                slots@.len() == i,
                forall|j: int| 0 <= j < i ==> slots@[j] == UnstakeRequest::spec_empty(),
            decreases MAX_UNSTAKE_REQUESTS - i,
        {
            slots.push(UnstakeRequest::default());
            i = i + 1;
        }
        proof {
            lemma_sum_remaining_empty_slots(slots@);
        }
        UserStake {
            owner,
            is_initialized: true,
            active_stake_amount: 0,
            vested_stake_amount: 0,
            unstake_requests: slots,
            reward_state: UserRewardState {
                reward_snapshot: 0,
                unclaimed_rewards: 0,
                total_claimed: 0,
            },
            last_update_timestamp: 0,
        }
    }

    /// Get the total amount currently unstaking (in linear vesting) across
    /// all requests: the remaining unclaimed amount that will gradually
    /// become claimable.
    pub fn get_total_unstaking(&self) -> (r: u64)
        requires
            self.wf(),
        ensures
            r == sum_remaining(self.unstake_requests@),
    {
        let s = Ghost(self.unstake_requests@);
        let n = self.unstake_requests.len();
        let mut total: u64 = 0;
        let mut i: usize = 0;
        while i < n
            invariant
                i <= n,
                n == s@.len(),
                s@ == self.unstake_requests@,
                self.wf(),
                total == sum_remaining(s@.take(i as int)),
            decreases n - i,
        {
            proof {
                lemma_sum_remaining_take_step(s@, i as int);
                lemma_sum_remaining_take_le(s@, i as int + 1);
                lemma_sum_remaining_nonneg(s@.take(i as int));
                lemma_sum_remaining_take_le(s@, i as int);
            }
            let req = self.unstake_requests[i];
            total = total + (req.total_amount - req.claimed_amount);
            i = i + 1;
        }
        proof {
            assert(s@.take(n as int) =~= s@);
        }
        total
    }

    /// Get the total claimable amount across all requests at the given time.
    pub fn get_total_claimable(&self, current_timestamp: i64) -> (r: u64)
        requires
            self.wf(),
        ensures
            r == sum_claimable(self.unstake_requests@, current_timestamp as int),
    {
        let t = Ghost(current_timestamp as int);
        let s = Ghost(self.unstake_requests@);
        let n = self.unstake_requests.len();
        let mut total: u64 = 0;
        let mut i: usize = 0;
        while i < n
            invariant
                i <= n,
                n == s@.len(),
                s@ == self.unstake_requests@,
                t@ == current_timestamp as int,
                self.wf(),
                total == sum_claimable(s@.take(i as int), t@),
                total <= sum_remaining(s@.take(i as int)),
            decreases n - i,
        {
            proof {
                lemma_sum_claimable_take_step(s@, t@, i as int);
                lemma_sum_remaining_take_step(s@, i as int);
                lemma_sum_remaining_take_le(s@, i as int + 1);
                s@[i as int].lemma_vested_bounds(t@);
            }
            let claimable = self.unstake_requests[i].get_claimable_amount(current_timestamp);
            total = total + claimable;
            i = i + 1;
        }
        proof {
            assert(s@.take(n as int) =~= s@);
        }
        total
    }

    /// Find the first empty slot for a new unstake request.
    pub fn find_empty_slot(&self) -> (r: Option<usize>)
        requires
            self.wf(),
        ensures
            match r {
                Some(i) => i < MAX_UNSTAKE_REQUESTS && self.unstake_requests@[i as int].total_amount
                    == 0 && forall|j: int|
                    0 <= j < i ==> (#[trigger] self.unstake_requests@[j]).total_amount > 0,
                None => forall|j: int|
                    0 <= j < MAX_UNSTAKE_REQUESTS ==> (
                    #[trigger] self.unstake_requests@[j]).total_amount > 0,
            },
    {
        let n = self.unstake_requests.len();
        let mut i: usize = 0;
        while i < n
            invariant
                i <= n,
                n == self.unstake_requests@.len(),
                self.wf(),
                forall|j: int| 0 <= j < i ==> (#[trigger] self.unstake_requests@[j]).total_amount
                    > 0,
            decreases n - i,
        {
            if self.unstake_requests[i].is_empty() {
                return Some(i);
            }
            i = i + 1;
        }
        None
    }

    /// Clean up fully claimed requests, clearing each such slot in place so
    /// that indices of live requests stay stable.
    pub fn cleanup_claimed_requests(&mut self)
        requires
            old(self).wf(),
        ensures
            final(self).wf(),
            final(self).unstake_requests@.len() == old(self).unstake_requests@.len(),
            forall|i: int|
                0 <= i < old(self).unstake_requests@.len() ==> final(self).unstake_requests@[i]
                    == (if old(self).unstake_requests@[i].total_amount > 0 && old(
                    self,
                ).unstake_requests@[i].claimed_amount >= old(
                    self,
                ).unstake_requests@[i].total_amount {
                    UnstakeRequest::spec_empty()
                } else {
                    old(self).unstake_requests@[i]
                }),
            sum_remaining(final(self).unstake_requests@) == sum_remaining(
                old(self).unstake_requests@,
            ),
            *final(self) == (UserStake {
                unstake_requests: final(self).unstake_requests,
                ..*old(self)
            }),
    {
        let ghost orig = self.unstake_requests@;
        let n = self.unstake_requests.len();
        let mut i: usize = 0;
        while i < n
            invariant
                i <= n,
                n == MAX_UNSTAKE_REQUESTS,
                self.unstake_requests@.len() == n,
                orig.len() == n,
                all_wf(orig),
                sum_remaining(orig) <= u64::MAX,
                forall|j: int|
                    0 <= j < i ==> self.unstake_requests@[j] == (if orig[j].total_amount > 0
                        && orig[j].claimed_amount >= orig[j].total_amount {
                        UnstakeRequest::spec_empty()
                    } else {
                        orig[j]
                    }),
                forall|j: int| i <= j < n ==> self.unstake_requests@[j] == orig[j],
                sum_remaining(self.unstake_requests@) == sum_remaining(orig),
                all_wf(self.unstake_requests@),
                *self == (UserStake { unstake_requests: self.unstake_requests, ..*old(self) }),
            decreases n - i,
        {
            if self.unstake_requests[i].is_fully_claimed() {
                proof {
                    lemma_sum_remaining_update(
                        self.unstake_requests@,
                        i as int,
                        UnstakeRequest::spec_empty(),
                    );
                }
                self.unstake_requests[i] = UnstakeRequest::default();
            }
            i = i + 1;
        }
    }
}

/// One request after claiming everything claimable on it at time `t`.
pub open spec fn claimed_up(r: UnstakeRequest, t: int) -> UnstakeRequest {
    UnstakeRequest { claimed_amount: (r.claimed_amount + r.claimable_at(t)) as u64, ..r }
}

/// The whole arena after a claim over every request at time `t`.
pub open spec fn claim_all_requests(s: Seq<UnstakeRequest>, t: int) -> Seq<UnstakeRequest> {
    Seq::new(s.len(), |j: int| claimed_up(s[j], t))
}

/// The arena after clearing every fully claimed slot in place.
pub open spec fn cleanup_requests(s: Seq<UnstakeRequest>) -> Seq<UnstakeRequest> {
    Seq::new(
        s.len(),
        |j: int|
            if s[j].total_amount > 0 && s[j].claimed_amount >= s[j].total_amount {
                UnstakeRequest::spec_empty()
            } else {
                s[j]
            },
    )
}

/// Claiming from one request keeps it well formed, moves its remainder down
/// by exactly the claimable amount, and that amount is within the remainder.
pub proof fn lemma_claimed_up(r: UnstakeRequest, t: int)
    requires
        r.wf(),
    ensures
        claimed_up(r, t).wf(),
        claimed_up(r, t).remaining() == r.remaining() - r.claimable_at(t),
        0 <= r.claimable_at(t) <= r.remaining(),
{
    r.lemma_vested_bounds(t);
}

/// A claim over every request moves the remaining sum down by exactly the
/// claimable sum, and keeps every slot well formed.
pub proof fn lemma_claim_all_sum(s: Seq<UnstakeRequest>, t: int)
    requires
        all_wf(s),
    ensures
        sum_remaining(claim_all_requests(s, t)) == sum_remaining(s) - sum_claimable(s, t),
        all_wf(claim_all_requests(s, t)),
    decreases s.len(),
{
    assert forall|j: int| 0 <= j < s.len() implies (#[trigger] claim_all_requests(s, t)[j]).wf() by {
        lemma_claimed_up(s[j], t);
    }
    if s.len() > 0 {
        assert(all_wf(s.drop_last()));
        assert(claim_all_requests(s, t).drop_last() =~= claim_all_requests(s.drop_last(), t));
        assert(claim_all_requests(s, t).last() == claimed_up(s.last(), t));
        lemma_claim_all_sum(s.drop_last(), t);
        lemma_claimed_up(s.last(), t);
    }
}

/// Clearing fully claimed slots keeps the remaining sum, since a fully
/// claimed slot has nothing remaining, and keeps every slot well formed.
pub proof fn lemma_cleanup_sum(s: Seq<UnstakeRequest>)
    requires
        all_wf(s),
    ensures
        sum_remaining(cleanup_requests(s)) == sum_remaining(s),
        all_wf(cleanup_requests(s)),
    decreases s.len(),
{
    if s.len() > 0 {
        assert(all_wf(s.drop_last()));
        assert(cleanup_requests(s).drop_last() =~= cleanup_requests(s.drop_last()));
        lemma_cleanup_sum(s.drop_last());
    }
}

/// A sequence of empty slots has nothing remaining in it.
pub proof fn lemma_sum_remaining_empty_slots(s: Seq<UnstakeRequest>)
    requires
        forall|i: int| 0 <= i < s.len() ==> s[i] == UnstakeRequest::spec_empty(),
    ensures
        sum_remaining(s) == 0,
    decreases s.len(),
{
    if s.len() > 0 {
        lemma_sum_remaining_empty_slots(s.drop_last());
    }
}

} // verus!
