use linear_staking::user_stake::UnstakeRequest;

fn req(total: u64, claimed: u64, start: i64, end: i64) -> UnstakeRequest {
    UnstakeRequest {
        total_amount: total,
        claimed_amount: claimed,
        start_timestamp: start,
        end_timestamp: end,
    }
}

#[test]
fn vested_nothing_at_or_before_start() {
    let r = req(1000, 0, 100, 1100);
    assert_eq!(r.get_vested_amount(0), 0);
    assert_eq!(r.get_vested_amount(99), 0);
    assert_eq!(r.get_vested_amount(100), 0);
}

#[test]
fn vested_all_at_or_after_end() {
    let r = req(1000, 0, 100, 1100);
    assert_eq!(r.get_vested_amount(1100), 1000);
    assert_eq!(r.get_vested_amount(5000), 1000);
}

#[test]
fn vested_linear_midpoint() {
    let r = req(1000, 0, 0, 1000);
    assert_eq!(r.get_vested_amount(500), 500);
    assert_eq!(r.get_vested_amount(250), 250);
}

#[test]
fn vested_floor_division() {
    let r = req(10, 0, 0, 3);
    assert_eq!(r.get_vested_amount(1), 3);
    assert_eq!(r.get_vested_amount(2), 6);
    assert_eq!(r.get_vested_amount(3), 10);
}

#[test]
fn vested_empty_request_is_zero() {
    let r = UnstakeRequest::default();
    assert_eq!(r.get_vested_amount(0), 0);
    assert_eq!(r.get_vested_amount(1_000_000), 0);
}

#[test]
fn claimable_subtracts_claimed() {
    let r = req(1000, 300, 0, 1000);
    assert_eq!(r.get_claimable_amount(500), 200);
    assert_eq!(r.get_claimable_amount(1000), 700);
}

#[test]
fn claimable_floors_at_zero() {
    // More already claimed than has vested at an earlier time.
    let r = req(1000, 800, 0, 1000);
    assert_eq!(r.get_claimable_amount(500), 0);
}

#[test]
fn vesting_monotonic_samples() {
    let r = req(997, 0, 13, 1013);
    let mut prev = 0u64;
    for t in 0..1100i64 {
        let v = r.get_vested_amount(t);
        assert!(v >= prev, "vested decreased at t={}", t);
        prev = v;
    }
}

#[test]
fn vested_exact_at_end() {
    let r = req(997, 0, 13, 1013);
    assert_eq!(r.get_vested_amount(1013), 997);
    assert_eq!(r.get_vested_amount(1012), 996);
}

#[test]
fn scenario_linear_unlock() {
    // vesting period 1000s, request of 1000 tokens starting at 0
    let mut r = req(1000, 0, 0, 1000);
    assert_eq!(r.get_claimable_amount(500), 500);
    assert_eq!(r.get_claimable_amount(999), 999);
    assert_eq!(r.get_claimable_amount(1000), 1000);
    // after claiming 500 at t=500
    r.claimed_amount = 500;
    assert_eq!(r.get_claimable_amount(1000), 500);
}

#[test]
fn empty_and_fully_claimed_flags() {
    assert!(UnstakeRequest::default().is_empty());
    assert!(!UnstakeRequest::default().is_fully_claimed());
    let live = req(10, 3, 0, 5);
    assert!(!live.is_empty());
    assert!(!live.is_fully_claimed());
    let done = req(10, 10, 0, 5);
    assert!(!done.is_empty());
    assert!(done.is_fully_claimed());
}
