use swaptrade::errors::SwapTradeError;
use swaptrade::validation::{validate_amount, validate_swap_pair, validate_token_symbol, validate_user_address};

#[test]
fn test_zero_amount_returns_invalid_amount() {
    let result = validate_amount(0);
    assert_eq!(result, Err(SwapTradeError::InvalidAmount));
    assert_eq!(SwapTradeError::InvalidAmount.code(), 100);
}

#[test]
fn test_negative_amount_returns_invalid_amount() {
    let result = validate_amount(-1);
    assert_eq!(result, Err(SwapTradeError::InvalidAmount));
}

#[test]
fn test_overflow_amount_returns_amount_overflow() {
    let result = validate_amount(1_000_000_000_000_000_001);
    assert_eq!(result, Err(SwapTradeError::AmountOverflow));
    assert_eq!(SwapTradeError::AmountOverflow.code(), 101);
}

#[test]
fn test_invalid_token_symbol_returns_invalid_token_symbol() {
    let result = validate_token_symbol(&"FAKE".to_string());
    assert_eq!(result, Err(SwapTradeError::InvalidTokenSymbol));
    assert_eq!(SwapTradeError::InvalidTokenSymbol.code(), 102);
}

#[test]
fn test_same_token_swap_returns_invalid_swap_pair() {
    let result = validate_swap_pair(&"XLM".to_string(), &"XLM".to_string());
    assert_eq!(result, Err(SwapTradeError::InvalidSwapPair));
    assert_eq!(SwapTradeError::InvalidSwapPair.code(), 103);
}

#[test]
fn test_error_codes_rate_limit_and_slippage_are_distinct() {
    assert_ne!(SwapTradeError::RateLimitExceeded.code(), SwapTradeError::SlippageExceeded.code());
    assert_eq!(SwapTradeError::RateLimitExceeded.code(), 300);
    assert_eq!(SwapTradeError::SlippageExceeded.code(), 301);
}

#[test]
fn test_error_codes_lp_variants_are_distinct() {
    assert_ne!(SwapTradeError::LPPositionNotFound.code(), SwapTradeError::InsufficientLPTokens.code());
    assert_eq!(SwapTradeError::LPPositionNotFound.code(), 400);
    assert_eq!(SwapTradeError::InsufficientLPTokens.code(), 401);
}

#[test]
fn test_kyc_error_codes_are_unique_and_in_range() {
    let kyc_variants: &[(SwapTradeError, u32)] = &[
        (SwapTradeError::KYCVerificationRequired, 500),
        (SwapTradeError::NotKYCOperator, 501),
        (SwapTradeError::InvalidKYCStateTransition, 502),
        (SwapTradeError::KYCTerminalStateImmutable, 503),
        (SwapTradeError::SelfVerificationNotAllowed, 504),
        (SwapTradeError::KYCOverrideNotFound, 505),
        (SwapTradeError::KYCTimelockNotElapsed, 506),
        (SwapTradeError::KYCOverrideAlreadyExecuted, 507),
        (SwapTradeError::InvalidTimelockDuration, 508),
        (SwapTradeError::KYCRequestExpired, 509),
        (SwapTradeError::InvalidExpiryDuration, 510),
    ];
    let mut seen = std::collections::HashSet::new();
    for (variant, expected_code) in kyc_variants {
        let code = variant.code();
        assert_eq!(code, *expected_code, "KYC variant code mismatch");
        assert!(seen.insert(code), "Duplicate KYC error code: {}", code);
    }
}

#[test]
fn test_staking_error_codes_are_unique() {
    let staking_variants: &[(SwapTradeError, u32)] = &[
        (SwapTradeError::InvalidStakeDuration, 600),
        (SwapTradeError::StakeNotFound, 601),
        (SwapTradeError::StakeNotActive, 602),
        (SwapTradeError::StakeLocked, 603),
        (SwapTradeError::NoClaimableBonuses, 604),
        (SwapTradeError::DistributionTooEarly, 605),
    ];
    let mut seen = std::collections::HashSet::new();
    for (variant, expected_code) in staking_variants {
        let code = variant.code();
        assert_eq!(code, *expected_code);
        assert!(seen.insert(code), "Duplicate staking error code: {}", code);
    }
}

#[test]
fn test_trading_state_error_codes_are_distinct() {
    assert_eq!(SwapTradeError::TradingPaused.code(), 10);
    assert_eq!(SwapTradeError::UserFrozen.code(), 11);
    assert_eq!(SwapTradeError::CircuitBreakerTripped.code(), 12);
}

#[test]
fn test_not_admin_error_code() {
    assert_eq!(SwapTradeError::NotAdmin.code(), 1);
}

#[test]
fn test_emergency_pause_non_admin_returns_not_emergency_admin() {
    let mut state = swaptrade::emergency::EmergencyState::new();
    let non_admin = 7u64;
    let result = swaptrade::emergency::pause(&mut state, non_admin);
    assert_eq!(result, Err(SwapTradeError::NotEmergencyAdmin));
    assert_eq!(SwapTradeError::NotEmergencyAdmin.code(), 700);
}

#[test]
fn test_emergency_freeze_non_admin_returns_not_emergency_admin() {
    let mut state = swaptrade::emergency::EmergencyState::new();
    let result = swaptrade::emergency::freeze_user(&mut state, 7, 8);
    assert_eq!(result, Err(SwapTradeError::NotEmergencyAdmin));
}

#[test]
fn test_all_error_codes_are_globally_unique() {
    let all: &[u32] = &[
        1, 10, 11, 12, 100, 101, 102, 103, 104, 105, 200, 201, 202, 203, 300, 301, 400, 401, 500, 501,
        502, 503, 504, 505, 506, 507, 508, 509, 510, 600, 601, 602, 603, 604, 605, 700,
    ];
    let mut seen = std::collections::HashSet::new();
    for &code in all {
        assert!(seen.insert(code), "Duplicate error code in catalog: {}", code);
    }
}

#[test]
fn zero_user_address_is_refused() {
    assert_eq!(validate_user_address(0), Err(SwapTradeError::InvalidUserAddress));
    assert_eq!(validate_user_address(42), Ok(()));
}
