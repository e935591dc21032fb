use swaptrade::errors::SwapTradeError;
use swaptrade::governance_params::{GovParamStorageKey, GovernanceParams, ParamKey, PARAM_TIMELOCK_DEFAULT, PARAM_TIMELOCK_MIN};

const ADMIN: u64 = 1;

fn setup() -> (GovernanceParams, Option<u64>, u64) {
    (GovernanceParams::new(), Some(ADMIN), ADMIN)
}

#[test]
fn test_propose_and_execute_after_timelock() {
    let (mut env, record, admin) = setup();
    let now = 0u64;
    let id = env.propose_update(record, admin, ParamKey::FeeBps, 300, now).unwrap();
    assert_eq!(env.execute_update(record, admin, id, now), Err(SwapTradeError::KYCTimelockNotElapsed));
    let later = now + PARAM_TIMELOCK_DEFAULT + 1;
    env.execute_update(record, admin, id, later).unwrap();
    assert_eq!(env.get_param(ParamKey::FeeBps), Some(300));
}

#[test]
fn test_duplicate_execution_fails() {
    let (mut env, record, admin) = setup();
    let id = env.propose_update(record, admin, ParamKey::FeeBps, 100, 0).unwrap();
    let later = PARAM_TIMELOCK_DEFAULT + 1;
    env.execute_update(record, admin, id, later).unwrap();
    assert_eq!(env.execute_update(record, admin, id, later), Err(SwapTradeError::KYCOverrideAlreadyExecuted));
}

#[test]
fn test_invalid_param_value_rejected() {
    let (mut env, record, admin) = setup();
    assert_eq!(env.propose_update(record, admin, ParamKey::FeeBps, 20_000, 0), Err(SwapTradeError::InvalidAmount));
    assert_eq!(env.propose_update(record, admin, ParamKey::MaxSwapAmount, -1, 0), Err(SwapTradeError::InvalidAmount));
}

#[test]
fn test_only_target_param_changes() {
    let (mut env, record, admin) = setup();
    let id = env.propose_update(record, admin, ParamKey::FeeBps, 200, 0).unwrap();
    env.execute_update(record, admin, id, PARAM_TIMELOCK_DEFAULT + 1).unwrap();
    assert_eq!(env.get_param(ParamKey::MaxSwapAmount), None);
    assert_eq!(env.get_param(ParamKey::FeeBps), Some(200));
}

#[test]
fn non_admins_cannot_propose_or_execute() {
    let (mut env, record, admin) = setup();
    assert_eq!(env.propose_update(record, 2, ParamKey::FeeBps, 10, 0), Err(SwapTradeError::NotAdmin));
    assert_eq!(env.propose_update(None, admin, ParamKey::FeeBps, 10, 0), Err(SwapTradeError::NotAdmin));
    let id = env.propose_update(record, admin, ParamKey::FeeBps, 10, 0).unwrap();
    assert_eq!(env.execute_update(record, 2, id, PARAM_TIMELOCK_DEFAULT + 1), Err(SwapTradeError::NotAdmin));
    assert_eq!(env.get_param(ParamKey::FeeBps), None);
}

#[test]
fn execution_exactly_at_the_deadline_is_allowed() {
    let (mut env, record, admin) = setup();
    let id = env.propose_update(record, admin, ParamKey::RateLimitWindow, 60, 10).unwrap();
    assert_eq!(env.execute_update(record, admin, id, 10 + PARAM_TIMELOCK_DEFAULT - 1), Err(SwapTradeError::KYCTimelockNotElapsed));
    assert!(env.execute_update(record, admin, id, 10 + PARAM_TIMELOCK_DEFAULT).is_ok());
    assert_eq!(env.get_param(ParamKey::RateLimitWindow), Some(60));
}

#[test]
fn unknown_update_ids_are_refused() {
    let (mut env, record, admin) = setup();
    assert_eq!(env.execute_update(record, admin, 77, 0), Err(SwapTradeError::KYCOverrideNotFound));
}

#[test]
fn proposal_ids_count_up_from_zero() {
    let (mut env, record, admin) = setup();
    assert_eq!(env.propose_update(record, admin, ParamKey::FeeBps, 1, 0), Ok(0));
    assert_eq!(env.propose_update(record, admin, ParamKey::FeeBps, 2, 0), Ok(1));
    assert!(env.get_pending_update(1).is_some());
    assert!(env.get_pending_update(2).is_none());
}

#[test]
fn timelock_delay_below_minimum_is_refused() {
    let (mut env, record, admin) = setup();
    assert_eq!(env.get_timelock_delay(), PARAM_TIMELOCK_DEFAULT);
    assert_eq!(env.set_timelock_delay(record, admin, PARAM_TIMELOCK_MIN - 1), Err(SwapTradeError::InvalidTimelockDuration));
    assert!(env.set_timelock_delay(record, admin, PARAM_TIMELOCK_MIN).is_ok());
    assert_eq!(env.get_timelock_delay(), PARAM_TIMELOCK_MIN);
    assert!(env.is_set(GovParamStorageKey::TimelockDelay));
}
