use swaptrade::invariants::{
    get_invariant_report, invariant_amm_constant_product, invariant_balance_update_consistency,
    invariant_fee_bounds, invariant_lp_position_integrity, invariant_non_negative_balances,
    invariant_rate_limit_monotonic, invariant_slippage_bounds, invariant_timestamp_monotonic,
    invariant_version_monotonic, verify_batch_invariants, verify_contract_invariants,
    verify_swap_invariants, InvariantCheck,
};
use swaptrade::errors::SwapTradeError;
use swaptrade::portfolio::{LPPosition, Portfolio};

#[test]
fn test_invariant_non_negative_balances_pass() {
    let portfolio = Portfolio::new();
    assert!(invariant_non_negative_balances(&portfolio));
}

#[test]
fn test_invariant_amm_constant_product_pass() {
    let xlm_before = 10000i128;
    let usdc_before = 10000i128;
    let xlm_after = 11000i128;
    let usdc_after = 9000i128;
    assert!(invariant_amm_constant_product(xlm_before, usdc_before, xlm_after, usdc_after));
}

#[test]
fn test_invariant_amm_constant_product_fail() {
    let xlm_before = 10000i128;
    let usdc_before = 10000i128;
    let xlm_after = 9000i128;
    let usdc_after = 12000i128;
    assert!(!invariant_amm_constant_product(xlm_before, usdc_before, xlm_after, usdc_after));
}

#[test]
fn test_invariant_fee_bounds_pass() {
    assert!(invariant_fee_bounds(10000, 30));
    assert!(invariant_fee_bounds(0, 0));
    assert!(invariant_fee_bounds(10000, 100));
}

#[test]
fn test_invariant_fee_bounds_fail() {
    assert!(!invariant_fee_bounds(10000, -1));
    assert!(!invariant_fee_bounds(10000, 101));
    assert!(!invariant_fee_bounds(0, 1));
}

#[test]
fn test_invariant_lp_position_integrity_pass() {
    let position = LPPosition { lp_address: 1, xlm_deposited: 1000, usdc_deposited: 1000, lp_tokens_minted: 1000 };
    assert!(invariant_lp_position_integrity(&position));
}

#[test]
fn test_invariant_lp_position_integrity_empty_pass() {
    let position = LPPosition { lp_address: 1, xlm_deposited: 0, usdc_deposited: 0, lp_tokens_minted: 0 };
    assert!(invariant_lp_position_integrity(&position));
}

#[test]
fn lp_position_with_tokens_but_no_deposit_fails_integrity() {
    let position = LPPosition { lp_address: 1, xlm_deposited: 0, usdc_deposited: 1000, lp_tokens_minted: 10 };
    assert!(!invariant_lp_position_integrity(&position));
}

#[test]
fn test_invariant_balance_update_consistency_pass() {
    assert!(invariant_balance_update_consistency(1000, 200, 300, 1100));
}

#[test]
fn test_invariant_balance_update_consistency_fail() {
    assert!(!invariant_balance_update_consistency(1000, 200, 300, 1000));
}

#[test]
fn balance_update_consistency_saturates() {
    assert!(invariant_balance_update_consistency(i128::MAX, 0, 5, i128::MAX));
    assert!(invariant_balance_update_consistency(i128::MIN, 5, 0, i128::MIN));
}

#[test]
fn test_invariant_slippage_bounds_pass() {
    assert!(invariant_slippage_bounds(10000, 9900, 100));
    assert!(invariant_slippage_bounds(10000, 10000, 100));
    assert!(invariant_slippage_bounds(10000, 10100, 100));
}

#[test]
fn test_invariant_slippage_bounds_fail() {
    assert!(!invariant_slippage_bounds(10000, 9800, 100));
}

#[test]
fn test_invariant_version_monotonic_pass() {
    assert!(invariant_version_monotonic(1, 2));
    assert!(invariant_version_monotonic(1, 1));
}

#[test]
fn test_invariant_version_monotonic_fail() {
    assert!(!invariant_version_monotonic(2, 1));
}

#[test]
fn test_invariant_timestamp_monotonic_pass() {
    assert!(invariant_timestamp_monotonic(1000, 2000));
    assert!(invariant_timestamp_monotonic(1000, 1000));
}

#[test]
fn test_invariant_timestamp_monotonic_fail() {
    assert!(!invariant_timestamp_monotonic(2000, 1000));
}

#[test]
fn rate_limit_counter_must_not_decrease() {
    assert!(invariant_rate_limit_monotonic(3, 4));
    assert!(!invariant_rate_limit_monotonic(4, 3));
}

#[test]
fn batch_invariants_detect_mixed_atomic_outcome() {
    assert_eq!(verify_batch_invariants(3, 3, 0, true), Ok(()));
    assert_eq!(verify_batch_invariants(3, 2, 1, true), Err(SwapTradeError::InvariantViolation));
    assert_eq!(verify_batch_invariants(3, 2, 1, false), Ok(()));
    assert_eq!(verify_batch_invariants(3, 1, 1, false), Err(SwapTradeError::InvariantViolation));
}

#[test]
fn swap_invariants_require_positive_output() {
    assert_eq!(verify_swap_invariants(10000, 10000, 11000, 9000, 1000, 900, 3), Ok(()));
    assert_eq!(
        verify_swap_invariants(10000, 10000, 11000, 9000, 1000, 0, 3),
        Err(SwapTradeError::InvariantViolation)
    );
}

#[test]
fn fresh_portfolio_satisfies_all_invariants() {
    let portfolio = Portfolio::new();
    assert_eq!(verify_contract_invariants(&portfolio), Ok(()));
    let report = get_invariant_report(&portfolio);
    assert_eq!(report.len(), 7);
    assert_eq!(report[0].0, "neg_bal");
    assert_eq!(report[6].0, "volume");
    assert!(report.iter().all(|(_, ok)| *ok));
}

#[test]
fn invariant_check_records_failures_in_order() {
    let mut check = InvariantCheck::new();
    assert!(check.passed);
    check.record_failure("neg_bal".to_string());
    check.record_failure("lp_tok".to_string());
    assert!(!check.passed);
    assert_eq!(check.failed_checks, vec!["neg_bal".to_string(), "lp_tok".to_string()]);
}
