use timelock_savings::error::Error;
use timelock_savings::interest::{accrue, penalty};
use timelock_savings::savings::{TimeLockedSavings, Transfer};

fn token() -> Vec<u8> {
    b"TOKEN".to_vec()
}

fn admin() -> Vec<u8> {
    b"ADMIN".to_vec()
}

fn user() -> Vec<u8> {
    b"USER".to_vec()
}

fn initialized(penalty_bps: u32) -> TimeLockedSavings {
    let mut s = TimeLockedSavings::new();
    assert_eq!(s.initialize(token(), admin(), penalty_bps), Ok(()));
    s
}

#[test]
fn test_create_and_withdraw_goal() {
    let mut s = initialized(1000);
    let goal_id = s.create_goal(user(), 10000, 2592000, 500, 0).unwrap();
    let amount = s.withdraw(&user(), goal_id, 2592001).unwrap();
    assert!(amount > 10000);
}

#[test]
fn scenario_create_then_withdraw_after_unlock() {
    let mut s = initialized(1000);
    let start: u64 = 1_700_000_000;
    let goal_id = s.create_goal(user(), 10000, 2592000, 500, start).unwrap();
    assert_eq!(goal_id, 0);
    let g = s.get_goal(&user(), 0).unwrap();
    assert_eq!(g.principal, 10000);
    assert_eq!(g.unlock_time, start + 2592000);
    assert!(g.is_active);
    let amount = s.withdraw(&user(), 0, start + 2592001).unwrap();
    // 10000 * 500 * 2592001 / 315360000000 = 41.09..., truncated
    assert_eq!(amount, 10041);
    assert!(!s.get_goal(&user(), 0).unwrap().is_active);
    let transfers = s.take_transfers();
    assert_eq!(transfers.len(), 2);
    match &transfers[0] {
        Transfer::Deposit { from, amount } => {
            assert_eq!(from, &user());
            assert_eq!(*amount, 10000);
        }
        _ => panic!("expected a deposit"),
    }
    match &transfers[1] {
        Transfer::Payout { to, amount } => {
            assert_eq!(to, &user());
            assert_eq!(*amount, 10041);
        }
        _ => panic!("expected a payout"),
    }
    assert!(s.take_transfers().is_empty());
}

#[test]
fn scenario_zero_rate_pays_principal_exactly() {
    let mut s = initialized(1000);
    let id = s.create_goal(user(), 5000, 86400, 0, 100).unwrap();
    assert_eq!(s.withdraw(&user(), id, 100 + 86400), Ok(5000));
}

#[test]
fn scenario_emergency_withdraw_on_fresh_goal() {
    let mut s = initialized(1000);
    let id = s.create_goal(user(), 10000, 31536000, 500, 50).unwrap();
    assert_eq!(s.emergency_withdraw(&user(), id, 50), Ok(9000));
    assert!(!s.get_goal(&user(), id).unwrap().is_active);
    let transfers = s.take_transfers();
    assert_eq!(transfers.len(), 3);
    match &transfers[2] {
        Transfer::Payout { to, amount } => {
            assert_eq!(to, &admin());
            assert_eq!(*amount, 1000);
        }
        _ => panic!("expected the penalty payout"),
    }
}

#[test]
fn scenario_inactive_goal_has_zero_balance() {
    let mut s = initialized(1000);
    let id = s.create_goal(user(), 10000, 86400, 500, 0).unwrap();
    s.withdraw(&user(), id, 86400).unwrap();
    assert_eq!(s.get_current_balance(&user(), id, 86400), Ok(0));
    assert_eq!(s.get_current_balance(&user(), id, 999_999_999), Ok(0));
}

#[test]
fn create_rejects_non_positive_amount_without_effect() {
    let mut s = initialized(1000);
    assert_eq!(s.create_goal(user(), 0, 86400, 500, 0), Err(Error::InvalidAmount));
    assert_eq!(s.create_goal(user(), -7, 86400, 500, 0), Err(Error::InvalidAmount));
    assert_eq!(s.get_user_goal_count(&user()), 0);
    assert!(s.take_transfers().is_empty());
}

#[test]
fn lock_duration_bounds() {
    let mut s = initialized(1000);
    assert_eq!(s.create_goal(user(), 100, 86400, 500, 0), Ok(0));
    assert_eq!(s.create_goal(user(), 100, 315360000, 500, 0), Ok(1));
    assert_eq!(s.create_goal(user(), 100, 86399, 500, 0), Err(Error::InvalidDuration));
    assert_eq!(s.create_goal(user(), 100, 315360001, 500, 0), Err(Error::InvalidDuration));
}

#[test]
fn interest_rate_bound() {
    let mut s = initialized(1000);
    assert_eq!(s.create_goal(user(), 100, 86400, 5000, 0), Ok(0));
    assert_eq!(s.create_goal(user(), 100, 86400, 5001, 0), Err(Error::RateTooHigh));
}

#[test]
fn compounding_twice_at_one_instant_is_noop() {
    let mut s = initialized(1000);
    let id = s.create_goal(user(), 1_000_000, 86400, 1000, 0).unwrap();
    assert_eq!(s.compound_interest(&user(), id, 31536000), Ok(()));
    let first = s.get_goal(&user(), id).unwrap();
    assert_eq!(first.accrued_interest, 100_000);
    assert_eq!(first.last_compound_time, 31536000);
    assert_eq!(s.compound_interest(&user(), id, 31536000), Ok(()));
    let second = s.get_goal(&user(), id).unwrap();
    assert_eq!(second.accrued_interest, 100_000);
    assert_eq!(second.last_compound_time, 31536000);
}

#[test]
fn accrual_grows_with_elapsed_time() {
    let mut last: i128 = 0;
    for elapsed in [0u64, 1, 1000, 2592000, 31536000, 315360000] {
        let v = accrue(10000, 500, elapsed).unwrap();
        assert!(v >= last);
        last = v;
    }
}

#[test]
fn no_second_payout() {
    let mut s = initialized(1000);
    let a = s.create_goal(user(), 10000, 86400, 500, 0).unwrap();
    let b = s.create_goal(user(), 10000, 86400, 500, 0).unwrap();
    s.withdraw(&user(), a, 86400).unwrap();
    assert_eq!(s.withdraw(&user(), a, 90000), Err(Error::AlreadyWithdrawn));
    assert_eq!(s.emergency_withdraw(&user(), a, 90000), Err(Error::AlreadyWithdrawn));
    assert_eq!(s.withdraw(&user(), a, 86400), Err(Error::AlreadyWithdrawn));
    s.emergency_withdraw(&user(), b, 10).unwrap();
    assert_eq!(s.withdraw(&user(), b, 90000), Err(Error::AlreadyWithdrawn));
    assert_eq!(s.emergency_withdraw(&user(), b, 90000), Err(Error::AlreadyWithdrawn));
    assert_eq!(s.emergency_withdraw(&user(), b, 10), Err(Error::AlreadyWithdrawn));
    assert_eq!(s.take_transfers().len(), 5);
    assert_eq!(s.compound_interest(&user(), a, 90000), Err(Error::GoalInactive));
}

#[test]
fn withdraw_before_unlock_is_still_locked() {
    let mut s = initialized(1000);
    let id = s.create_goal(user(), 10000, 86400, 500, 0).unwrap();
    assert_eq!(s.withdraw(&user(), id, 86399), Err(Error::StillLocked));
    let g = s.get_goal(&user(), id).unwrap();
    assert!(g.is_active);
    assert_eq!(g.last_compound_time, 0);
    assert_eq!(g.accrued_interest, 0);
}

#[test]
fn accrue_exact_values() {
    assert_eq!(accrue(10000, 500, 31536000), Ok(500));
    assert_eq!(accrue(10000, 500, 2592001), Ok(41));
    assert_eq!(accrue(-10000, 500, 2592001), Ok(-41));
    assert_eq!(accrue(10000, 0, 31536000), Ok(0));
    assert_eq!(accrue(i128::MAX, 2, 1), Err(Error::Overflow));
    assert_eq!(accrue(i128::MAX / 4, 2, 3), Err(Error::Overflow));
}

#[test]
fn penalty_exact_values() {
    assert_eq!(penalty(10000, 1000), Ok(1000));
    assert_eq!(penalty(10041, 1000), Ok(1004));
    assert_eq!(penalty(-15, 1000), Ok(-1));
    assert_eq!(penalty(i128::MAX, 2), Err(Error::Overflow));
}

#[test]
fn initialize_only_once() {
    let mut s = TimeLockedSavings::new();
    assert_eq!(s.initialize(token(), admin(), 5001), Err(Error::PenaltyTooHigh));
    assert_eq!(s.initialize(token(), admin(), 5000), Ok(()));
    assert_eq!(s.initialize(token(), admin(), 100), Err(Error::AlreadyInitialized));
}

#[test]
fn operations_before_initialize() {
    let mut s = TimeLockedSavings::new();
    assert_eq!(s.create_goal(user(), 100, 86400, 500, 0), Err(Error::NotInitialized));
    assert_eq!(s.set_emergency_penalty(&admin(), 100), Err(Error::NotInitialized));
}

#[test]
fn unlock_time_overflow() {
    let mut s = initialized(1000);
    assert_eq!(s.create_goal(user(), 100, 86400, 500, u64::MAX - 10), Err(Error::Overflow));
}

#[test]
fn goal_lookup_is_per_owner() {
    let mut s = initialized(1000);
    let id = s.create_goal(user(), 100, 86400, 500, 0).unwrap();
    let other = b"OTHER".to_vec();
    assert!(matches!(s.get_goal(&other, id), Err(Error::GoalNotFound)));
    assert!(matches!(s.get_goal(&user(), id + 1), Err(Error::GoalNotFound)));
    assert_eq!(s.compound_interest(&other, id, 10), Err(Error::GoalNotFound));
    assert_eq!(s.withdraw(&other, id, 86400), Err(Error::GoalNotFound));
    assert_eq!(s.get_current_balance(&other, id, 10), Err(Error::GoalNotFound));
}

#[test]
fn goal_ids_are_shared_and_counts_per_owner() {
    let mut s = initialized(1000);
    let other = b"OTHER".to_vec();
    assert_eq!(s.create_goal(user(), 100, 86400, 500, 0), Ok(0));
    assert_eq!(s.create_goal(other.clone(), 100, 86400, 500, 0), Ok(1));
    assert_eq!(s.create_goal(user(), 100, 86400, 500, 0), Ok(2));
    assert_eq!(s.get_user_goal_count(&user()), 2);
    assert_eq!(s.get_user_goal_count(&other), 1);
    assert_eq!(s.get_user_goal_count(&admin()), 0);
}

#[test]
fn clock_moving_backward_is_time_error() {
    let mut s = initialized(1000);
    let id = s.create_goal(user(), 100, 86400, 500, 1000).unwrap();
    assert_eq!(s.compound_interest(&user(), id, 999), Err(Error::TimeError));
    assert_eq!(s.get_current_balance(&user(), id, 999), Err(Error::TimeError));
}

#[test]
fn current_balance_matches_compounding() {
    let mut s = initialized(1000);
    let id = s.create_goal(user(), 1_000_000, 86400, 1000, 0).unwrap();
    let read = s.get_current_balance(&user(), id, 31536000).unwrap();
    assert_eq!(read, 1_100_000);
    assert_eq!(s.get_goal(&user(), id).unwrap().last_compound_time, 0);
    s.compound_interest(&user(), id, 31536000).unwrap();
    let g = s.get_goal(&user(), id).unwrap();
    assert_eq!(g.principal + g.accrued_interest, read);
}

#[test]
fn admin_changes_penalty() {
    let mut s = initialized(1000);
    assert_eq!(s.set_emergency_penalty(&user(), 100), Err(Error::Unauthorized));
    assert_eq!(s.set_emergency_penalty(&admin(), 5001), Err(Error::PenaltyTooHigh));
    assert_eq!(s.set_emergency_penalty(&admin(), 2500), Ok(()));
    let id = s.create_goal(user(), 10000, 86400, 0, 0).unwrap();
    assert_eq!(s.emergency_withdraw(&user(), id, 5), Ok(7500));
}

#[test]
fn current_balance_with_nothing_elapsed_on_large_goal() {
    let mut s = initialized(1000);
    let big: i128 = 100_000_000_000_000_000_000_000_000_000_000_000;
    let id = s.create_goal(user(), big, 86400, 5000, 10).unwrap();
    assert_eq!(s.compound_interest(&user(), id, 10), Ok(()));
    assert_eq!(s.get_current_balance(&user(), id, 10), Ok(big));
    assert_eq!(s.get_current_balance(&user(), id, 11), Err(Error::Overflow));
    assert_eq!(s.compound_interest(&user(), id, 11), Err(Error::Overflow));
}

#[test]
fn well_formedness_check() {
    let mut s = initialized(1000);
    assert!(s.is_wf());
    s.create_goal(user(), 100, 86400, 500, 0).unwrap();
    assert!(s.is_wf());
    s.goals[0].unlock_time = 5;
    assert!(!s.is_wf());
    s.goals[0].unlock_time = 86400;
    assert!(s.is_wf());
    s.goals[0].principal = 0;
    assert!(!s.is_wf());
    let mut bare = TimeLockedSavings::new();
    assert!(bare.is_wf());
    bare.goals.push(s.get_goal(&user(), 0).unwrap());
    assert!(!bare.is_wf());
}
