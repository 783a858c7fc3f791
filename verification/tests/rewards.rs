use linear_staking::constants::PRECISION;
use linear_staking::operations::collect_rewards;
use linear_staking::operations::deposit_rewards;
use linear_staking::operations::deposit_stake;
use linear_staking::operations::distribute_rewards;
use linear_staking::operations::initialize;
use linear_staking::rewards::refresh_user_rewards;
use linear_staking::rewards::update_reward_snapshot_after_stake_change;
use linear_staking::user_stake::UserStake;

const ADMIN: u64 = 1;

#[test]
fn scenario_sixty_forty_split() {
    let mut vault = initialize(ADMIN, None).unwrap();
    let mut a = UserStake::new(10);
    let mut b = UserStake::new(11);
    deposit_stake(&mut vault, &mut a, 60, 0).unwrap();
    deposit_stake(&mut vault, &mut b, 40, 0).unwrap();
    assert_eq!(vault.reward_state.reward_per_token_staked, 0);
    deposit_rewards(&mut vault, ADMIN, 100).unwrap();
    distribute_rewards(&mut vault).unwrap();
    // reward_per_token = 100 * PRECISION / 100 = PRECISION
    assert_eq!(vault.reward_state.reward_per_token_staked, PRECISION);
    assert_eq!(vault.reward_state.total_distributed, 100);
    assert_eq!(vault.reward_state.pending_rewards, 0);
    refresh_user_rewards(&mut a, &vault).unwrap();
    refresh_user_rewards(&mut b, &vault).unwrap();
    assert_eq!(a.reward_state.unclaimed_rewards, 60);
    assert_eq!(b.reward_state.unclaimed_rewards, 40);
}

#[test]
fn refresh_twice_is_idempotent() {
    let mut vault = initialize(ADMIN, None).unwrap();
    let mut a = UserStake::new(10);
    deposit_stake(&mut vault, &mut a, 100, 0).unwrap();
    deposit_rewards(&mut vault, ADMIN, 7).unwrap();
    distribute_rewards(&mut vault).unwrap();
    refresh_user_rewards(&mut a, &vault).unwrap();
    let unclaimed_once = a.reward_state.unclaimed_rewards;
    let snapshot_once = a.reward_state.reward_snapshot;
    refresh_user_rewards(&mut a, &vault).unwrap();
    assert_eq!(a.reward_state.unclaimed_rewards, unclaimed_once);
    assert_eq!(a.reward_state.reward_snapshot, snapshot_once);
}

#[test]
fn accumulator_is_monotonic() {
    let mut vault = initialize(ADMIN, None).unwrap();
    let mut a = UserStake::new(10);
    deposit_stake(&mut vault, &mut a, 3, 0).unwrap();
    let mut last = vault.reward_state.reward_per_token_staked;
    for round in 1..6u64 {
        deposit_rewards(&mut vault, ADMIN, round).unwrap();
        distribute_rewards(&mut vault).unwrap();
        let now = vault.reward_state.reward_per_token_staked;
        assert!(now >= last);
        last = now;
    }
}

#[test]
fn distribution_rounding_loss_is_bounded() {
    let mut vault = initialize(ADMIN, None).unwrap();
    let mut a = UserStake::new(10);
    let mut b = UserStake::new(11);
    deposit_stake(&mut vault, &mut a, 1, 0).unwrap();
    deposit_stake(&mut vault, &mut b, 2, 0).unwrap();
    deposit_rewards(&mut vault, ADMIN, 10).unwrap();
    distribute_rewards(&mut vault).unwrap();
    // increment = 10 * PRECISION / 3, floored
    assert_eq!(vault.reward_state.reward_per_token_staked, 10 * PRECISION / 3);
    refresh_user_rewards(&mut a, &vault).unwrap();
    refresh_user_rewards(&mut b, &vault).unwrap();
    let da = a.reward_state.unclaimed_rewards;
    let db = b.reward_state.unclaimed_rewards;
    assert_eq!(da, 3);
    assert_eq!(db, 6);
    // within N = 2 units of the distributed 10
    assert!(da + db <= 10 && da + db >= 10 - 2);
}

#[test]
fn collect_zeroes_unclaimed_and_tracks_totals() {
    let mut vault = initialize(ADMIN, None).unwrap();
    let mut a = UserStake::new(10);
    deposit_stake(&mut vault, &mut a, 100, 0).unwrap();
    deposit_rewards(&mut vault, ADMIN, 25).unwrap();
    distribute_rewards(&mut vault).unwrap();
    // collect refreshes internally, no separate refresh needed
    let got = collect_rewards(&mut vault, &mut a, 50).unwrap();
    assert_eq!(got, 25);
    assert_eq!(a.reward_state.unclaimed_rewards, 0);
    assert_eq!(a.reward_state.total_claimed, 25);
    assert_eq!(vault.reward_state.total_claimed, 25);
    assert_eq!(a.last_update_timestamp, 50);
}

#[test]
fn deposit_rewards_accumulates_pending() {
    let mut vault = initialize(ADMIN, None).unwrap();
    deposit_rewards(&mut vault, ADMIN, 10).unwrap();
    deposit_rewards(&mut vault, ADMIN, 15).unwrap();
    assert_eq!(vault.reward_state.pending_rewards, 25);
}

#[test]
fn late_depositor_earns_nothing_backdated() {
    let mut vault = initialize(ADMIN, None).unwrap();
    let mut a = UserStake::new(10);
    deposit_stake(&mut vault, &mut a, 100, 0).unwrap();
    deposit_rewards(&mut vault, ADMIN, 100).unwrap();
    distribute_rewards(&mut vault).unwrap();
    // c deposits only after the distribution
    let mut c = UserStake::new(12);
    deposit_stake(&mut vault, &mut c, 900, 10).unwrap();
    refresh_user_rewards(&mut c, &vault).unwrap();
    assert_eq!(c.reward_state.unclaimed_rewards, 0);
    // a still gets the whole pool
    refresh_user_rewards(&mut a, &vault).unwrap();
    assert_eq!(a.reward_state.unclaimed_rewards, 100);
}

#[test]
fn resnapshot_rebases_without_crediting() {
    let mut vault = initialize(ADMIN, None).unwrap();
    let mut a = UserStake::new(10);
    deposit_stake(&mut vault, &mut a, 50, 0).unwrap();
    deposit_rewards(&mut vault, ADMIN, 10).unwrap();
    distribute_rewards(&mut vault).unwrap();
    let unclaimed_before = a.reward_state.unclaimed_rewards;
    update_reward_snapshot_after_stake_change(&mut a, &vault).unwrap();
    assert_eq!(a.reward_state.unclaimed_rewards, unclaimed_before);
    // the snapshot has moved up to the current watermark: 50 * rpt / PRECISION
    assert_eq!(a.reward_state.reward_snapshot, 10);
    // a refresh now credits nothing new
    refresh_user_rewards(&mut a, &vault).unwrap();
    assert_eq!(a.reward_state.unclaimed_rewards, unclaimed_before);
}
