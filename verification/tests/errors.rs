use linear_staking::error::ErrorCode;
use linear_staking::operations::cancel_unstake;
use linear_staking::operations::claim_vested;
use linear_staking::operations::collect_rewards;
use linear_staking::operations::deposit_rewards;
use linear_staking::operations::deposit_stake;
use linear_staking::operations::distribute_rewards;
use linear_staking::operations::emergency_withdraw;
use linear_staking::operations::initialize;
use linear_staking::operations::pause_vault;
use linear_staking::operations::unpause_vault;
use linear_staking::operations::unstake_request;
use linear_staking::operations::update_permissions;
use linear_staking::operations::update_vesting_period;
use linear_staking::user_stake::UnstakeRequest;
use linear_staking::user_stake::UserStake;

const ADMIN: u64 = 1;

#[test]
fn invalid_amount_on_zero_deposit() {
    let mut vault = initialize(ADMIN, None).unwrap();
    let mut user = UserStake::new(7);
    assert_eq!(
        deposit_stake(&mut vault, &mut user, 0, 0),
        Err(ErrorCode::InvalidAmount)
    );
}

#[test]
fn insufficient_balance_on_oversized_unstake() {
    let mut vault = initialize(ADMIN, None).unwrap();
    let mut user = UserStake::new(7);
    deposit_stake(&mut vault, &mut user, 100, 0).unwrap();
    assert_eq!(
        unstake_request(&mut vault, &mut user, 101, 0),
        Err(ErrorCode::InsufficientBalance)
    );
}

#[test]
fn max_unstake_requests_reached() {
    let mut vault = initialize(ADMIN, None).unwrap();
    let mut user = UserStake::new(7);
    deposit_stake(&mut vault, &mut user, 100, 0).unwrap();
    for _ in 0..5 {
        unstake_request(&mut vault, &mut user, 10, 0).unwrap();
    }
    assert_eq!(
        unstake_request(&mut vault, &mut user, 10, 0),
        Err(ErrorCode::MaxUnstakeRequestsReached)
    );
}

#[test]
fn invalid_request_index_on_cancel() {
    let mut vault = initialize(ADMIN, None).unwrap();
    let mut user = UserStake::new(7);
    assert_eq!(
        cancel_unstake(&mut vault, &mut user, 9, 0),
        Err(ErrorCode::InvalidRequestIndex)
    );
    // an in-range but empty slot is rejected the same way
    assert_eq!(
        cancel_unstake(&mut vault, &mut user, 0, 0),
        Err(ErrorCode::InvalidRequestIndex)
    );
}

#[test]
fn no_amount_to_cancel_on_fully_claimed_request() {
    let mut vault = initialize(ADMIN, None).unwrap();
    let mut user = UserStake::new(7);
    // a fully claimed request that has not been cleaned up yet
    user.unstake_requests[0] = UnstakeRequest {
        total_amount: 10,
        claimed_amount: 10,
        start_timestamp: 0,
        end_timestamp: 5,
    };
    vault.stake_stats.total_staked = 10;
    vault.stake_stats.total_vested = 10;
    assert_eq!(
        cancel_unstake(&mut vault, &mut user, 0, 0),
        Err(ErrorCode::NoAmountToCancel)
    );
}

#[test]
fn no_vested_tokens_on_too_early_claim_by_id() {
    let mut vault = initialize(ADMIN, Some(1000)).unwrap();
    let mut user = UserStake::new(7);
    deposit_stake(&mut vault, &mut user, 100, 0).unwrap();
    unstake_request(&mut vault, &mut user, 100, 50).unwrap();
    assert_eq!(
        claim_vested(&mut vault, &mut user, Some(0), 50),
        Err(ErrorCode::NoVestedTokens)
    );
}

#[test]
fn no_claimable_amount_on_too_early_claim_all() {
    let mut vault = initialize(ADMIN, Some(1000)).unwrap();
    let mut user = UserStake::new(7);
    deposit_stake(&mut vault, &mut user, 100, 0).unwrap();
    unstake_request(&mut vault, &mut user, 100, 50).unwrap();
    assert_eq!(
        claim_vested(&mut vault, &mut user, None, 50),
        Err(ErrorCode::NoClaimableAmount)
    );
}

#[test]
fn invalid_unstake_request_id_on_claim() {
    let mut vault = initialize(ADMIN, None).unwrap();
    let mut user = UserStake::new(7);
    assert_eq!(
        claim_vested(&mut vault, &mut user, Some(9), 0),
        Err(ErrorCode::InvalidUnstakeRequestId)
    );
    assert_eq!(
        claim_vested(&mut vault, &mut user, Some(0), 0),
        Err(ErrorCode::InvalidUnstakeRequestId)
    );
}

#[test]
fn no_rewards_to_claim() {
    let mut vault = initialize(ADMIN, None).unwrap();
    let mut user = UserStake::new(7);
    assert_eq!(
        collect_rewards(&mut vault, &mut user, 0),
        Err(ErrorCode::NoRewardsToClaim)
    );
}

#[test]
fn no_active_stake_on_distribute() {
    let mut vault = initialize(ADMIN, None).unwrap();
    deposit_rewards(&mut vault, ADMIN, 10).unwrap();
    assert_eq!(distribute_rewards(&mut vault), Err(ErrorCode::NoActiveStake));
}

#[test]
fn no_pending_rewards_on_distribute() {
    let mut vault = initialize(ADMIN, None).unwrap();
    assert_eq!(distribute_rewards(&mut vault), Err(ErrorCode::NoPendingRewards));
}

#[test]
fn math_overflow_on_total_staked() {
    let mut vault = initialize(ADMIN, None).unwrap();
    let mut a = UserStake::new(7);
    deposit_stake(&mut vault, &mut a, u64::MAX, 0).unwrap();
    let mut b = UserStake::new(8);
    assert_eq!(
        deposit_stake(&mut vault, &mut b, 1, 0),
        Err(ErrorCode::MathOverflow)
    );
}

#[test]
fn unauthorized_on_admin_operations() {
    let mut vault = initialize(ADMIN, None).unwrap();
    let stranger = 99;
    assert_eq!(deposit_rewards(&mut vault, stranger, 10), Err(ErrorCode::Unauthorized));
    assert_eq!(pause_vault(&mut vault, stranger), Err(ErrorCode::Unauthorized));
    assert_eq!(unpause_vault(&mut vault, stranger), Err(ErrorCode::Unauthorized));
    assert_eq!(
        update_vesting_period(&mut vault, stranger, 10),
        Err(ErrorCode::Unauthorized)
    );
    assert_eq!(
        update_permissions(&mut vault, stranger, Some(false), None),
        Err(ErrorCode::Unauthorized)
    );
    assert_eq!(
        emergency_withdraw(&vault, stranger, 0, 100),
        Err(ErrorCode::Unauthorized)
    );
}

#[test]
fn deposits_disabled() {
    let mut vault = initialize(ADMIN, None).unwrap();
    update_permissions(&mut vault, ADMIN, Some(false), None).unwrap();
    let mut user = UserStake::new(7);
    assert_eq!(
        deposit_stake(&mut vault, &mut user, 10, 0),
        Err(ErrorCode::DepositsDisabled)
    );
}

#[test]
fn withdrawals_disabled() {
    let mut vault = initialize(ADMIN, None).unwrap();
    let mut user = UserStake::new(7);
    deposit_stake(&mut vault, &mut user, 100, 0).unwrap();
    update_permissions(&mut vault, ADMIN, None, Some(false)).unwrap();
    assert_eq!(
        unstake_request(&mut vault, &mut user, 10, 0),
        Err(ErrorCode::WithdrawalsDisabled)
    );
    assert_eq!(
        claim_vested(&mut vault, &mut user, None, 0),
        Err(ErrorCode::WithdrawalsDisabled)
    );
}

#[test]
fn vault_paused_blocks_operations() {
    let mut vault = initialize(ADMIN, None).unwrap();
    let mut user = UserStake::new(7);
    deposit_stake(&mut vault, &mut user, 100, 0).unwrap();
    unstake_request(&mut vault, &mut user, 10, 0).unwrap();
    deposit_rewards(&mut vault, ADMIN, 10).unwrap();
    pause_vault(&mut vault, ADMIN).unwrap();
    assert_eq!(
        deposit_stake(&mut vault, &mut user, 10, 0),
        Err(ErrorCode::VaultPaused)
    );
    assert_eq!(
        cancel_unstake(&mut vault, &mut user, 0, 0),
        Err(ErrorCode::VaultPaused)
    );
    assert_eq!(distribute_rewards(&mut vault), Err(ErrorCode::VaultPaused));
}

#[test]
fn vault_already_paused() {
    let mut vault = initialize(ADMIN, None).unwrap();
    pause_vault(&mut vault, ADMIN).unwrap();
    assert_eq!(pause_vault(&mut vault, ADMIN), Err(ErrorCode::VaultAlreadyPaused));
}

#[test]
fn not_paused_on_unpause() {
    let mut vault = initialize(ADMIN, None).unwrap();
    assert_eq!(unpause_vault(&mut vault, ADMIN), Err(ErrorCode::NotPaused));
}

#[test]
fn vault_not_paused_on_emergency_withdraw() {
    let vault = initialize(ADMIN, None).unwrap();
    assert_eq!(
        emergency_withdraw(&vault, ADMIN, 0, 100),
        Err(ErrorCode::VaultNotPaused)
    );
}

#[test]
fn invalid_vesting_period() {
    assert_eq!(initialize(ADMIN, Some(0)), Err(ErrorCode::InvalidVestingPeriod));
    assert_eq!(initialize(ADMIN, Some(-5)), Err(ErrorCode::InvalidVestingPeriod));
    let mut vault = initialize(ADMIN, None).unwrap();
    assert_eq!(
        update_vesting_period(&mut vault, ADMIN, 0),
        Err(ErrorCode::InvalidVestingPeriod)
    );
}

#[test]
fn insufficient_vault_balance_on_emergency_withdraw() {
    let mut vault = initialize(ADMIN, None).unwrap();
    pause_vault(&mut vault, ADMIN).unwrap();
    assert_eq!(
        emergency_withdraw(&vault, ADMIN, 100, 50),
        Err(ErrorCode::InsufficientVaultBalance)
    );
    // a zero balance with a drain-all request is an invalid amount
    assert_eq!(
        emergency_withdraw(&vault, ADMIN, 0, 0),
        Err(ErrorCode::InvalidAmount)
    );
}
