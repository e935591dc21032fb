use swaptrade::errors::SwapTradeError;
use swaptrade::nonce::NonceGuard;

fn setup() -> (NonceGuard, u64) {
    (NonceGuard::new(), 1)
}

#[test]
fn test_fresh_nonce_accepted() {
    let (mut env, user) = setup();
    assert!(env.consume(user, 1).is_ok());
}

#[test]
fn test_duplicate_nonce_rejected() {
    let (mut env, user) = setup();
    env.consume(user, 42).unwrap();
    assert_eq!(env.consume(user, 42), Err(SwapTradeError::RateLimitExceeded));
}

#[test]
fn test_different_users_same_nonce() {
    let (mut env, _) = setup();
    let user_a = 10u64;
    let user_b = 11u64;
    env.consume(user_a, 7).unwrap();
    assert!(env.consume(user_b, 7).is_ok());
}

#[test]
fn test_is_used_reflects_state() {
    let (mut env, user) = setup();
    assert!(!env.is_used(user, 99));
    env.consume(user, 99).unwrap();
    assert!(env.is_used(user, 99));
}

#[test]
fn test_replay_attack_simulation() {
    let (mut env, user) = setup();
    env.consume(user, 1000).unwrap();
    assert_eq!(env.consume(user, 1000), Err(SwapTradeError::RateLimitExceeded));
}

#[test]
fn a_refused_nonce_stays_refused() {
    let (mut env, user) = setup();
    env.consume(user, 5).unwrap();
    for _ in 0..3 {
        assert_eq!(env.consume(user, 5), Err(SwapTradeError::RateLimitExceeded));
    }
    assert!(env.consume(user, 6).is_ok());
    assert!(!env.is_used(user + 1, 5));
}
