use swaptrade::contract::CounterContract;
use swaptrade::trading::SwapFailure;

const NOW: u64 = 1_000;

fn setup_test_portfolio() -> (CounterContract, u64, String, String) {
    let client = CounterContract::new();
    let user = 1u64;
    (client, user, "XLM".to_string(), "USDCSIM".to_string())
}

#[test]
fn test_swap_basic_xlm_to_usdc() {
    let (mut client, user, xlm, usdc) = setup_test_portfolio();
    client.mint(&xlm, user, 1000).unwrap();
    let out = client.swap(&xlm, &usdc, 100, user, NOW, 1).unwrap();
    assert_eq!(out, 100);
    assert_eq!(client.get_balance(&xlm, user), 900);
    assert_eq!(client.get_balance(&usdc, user), 100);
}

#[test]
fn test_swap_basic_usdc_to_xlm() {
    let (mut client, user, xlm, usdc) = setup_test_portfolio();
    client.mint(&usdc, user, 1000).unwrap();
    let out = client.swap(&usdc, &xlm, 200, user, NOW, 1).unwrap();
    assert_eq!(out, 200);
    assert_eq!(client.get_balance(&usdc, user), 800);
    assert_eq!(client.get_balance(&xlm, user), 200);
}

#[test]
fn test_swap_zero_amount() {
    let (mut client, user, xlm, usdc) = setup_test_portfolio();
    client.mint(&xlm, user, 1000).unwrap();
    assert_eq!(client.swap(&xlm, &usdc, 0, user, NOW, 1), Err(SwapFailure::NonPositiveAmount));
    assert_eq!(client.get_balance(&xlm, user), 1000);
}

#[test]
fn test_swap_insufficient_balance() {
    let (mut client, user, xlm, usdc) = setup_test_portfolio();
    client.mint(&xlm, user, 50).unwrap();
    assert_eq!(client.swap(&xlm, &usdc, 100, user, NOW, 1), Err(SwapFailure::InsufficientFunds));
    assert_eq!(client.get_balance(&xlm, user), 50);
}

#[test]
fn test_swap_same_token() {
    let (mut client, user, xlm, _) = setup_test_portfolio();
    client.mint(&xlm, user, 1000).unwrap();
    assert_eq!(client.swap(&xlm, &xlm, 100, user, NOW, 1), Err(SwapFailure::SameToken));
}

#[test]
fn test_swap_1_satoshi() {
    let (mut client, user, xlm, usdc) = setup_test_portfolio();
    client.mint(&xlm, user, 1000).unwrap();
    let out = client.swap(&xlm, &usdc, 1, user, NOW, 1).unwrap();
    assert_eq!(out, 1);
    assert_eq!(client.get_balance(&xlm, user), 999);
    assert_eq!(client.get_balance(&usdc, user), 1);
}

#[test]
fn test_swap_invalid_token() {
    let (mut client, user, xlm, _) = setup_test_portfolio();
    let doge = "DOGE".to_string();
    client.mint(&xlm, user, 1000).unwrap();
    assert_eq!(client.swap(&doge, &xlm, 100, user, NOW, 1), Err(SwapFailure::InvalidFromToken));
}

#[test]
fn test_swap_state_consistency() {
    let (mut client, user, xlm, usdc) = setup_test_portfolio();
    client.mint(&xlm, user, 1000).unwrap();
    let metrics_before = client.get_metrics();
    let txs_before = client.get_user_transactions(user, 10);
    assert_eq!(txs_before.len(), 0);

    client.swap(&xlm, &usdc, 100, user, NOW, 1).unwrap();

    let metrics_after = client.get_metrics();
    assert_eq!(metrics_after.trades_executed, metrics_before.trades_executed + 1);
    assert_eq!(metrics_after.balances_updated, metrics_before.balances_updated + 2);
    let txs_after = client.get_user_transactions(user, 10);
    assert_eq!(txs_after.len(), 1);
    let tx = &txs_after[0];
    assert_eq!(tx.from_token, xlm);
    assert_eq!(tx.to_token, usdc);
    assert_eq!(tx.from_amount, 100);
}

#[test]
fn test_swap_rounding() {
    let (mut client, user, xlm, usdc) = setup_test_portfolio();
    let precision: u128 = 1_000_000_000_000_000_000;
    let price: u128 = (25 * precision) / 10;
    client.set_price((xlm.clone(), usdc.clone()), price, NOW);
    client.mint(&xlm, user, 1000).unwrap();
    let out = client.swap(&xlm, &usdc, 3, user, NOW, 1).unwrap();
    assert_eq!(out, 7);
}

#[test]
fn test_swap_sequential() {
    let (mut client, user, xlm, usdc) = setup_test_portfolio();
    client.mint(&xlm, user, 5000).unwrap();

    client.swap(&xlm, &usdc, 1000, user, NOW, 1).unwrap();
    assert_eq!(client.get_balance(&xlm, user), 4000);
    assert_eq!(client.get_balance(&usdc, user), 997);

    client.swap(&xlm, &usdc, 1000, user, NOW, 2).unwrap();
    assert_eq!(client.get_balance(&xlm, user), 3000);
    assert_eq!(client.get_balance(&usdc, user), 1995);

    client.swap(&usdc, &xlm, 500, user, NOW, 3).unwrap();
    assert_eq!(client.get_balance(&usdc, user), 1495);
    assert_eq!(client.get_balance(&xlm, user), 3499);

    let txs = client.get_user_transactions(user, 10);
    assert_eq!(txs.len(), 3);
    assert_eq!(txs[0].from_token, xlm);
    assert_eq!(txs[2].from_token, usdc);
}

#[test]
fn test_tier_fees_novice() {
    let (mut client, user, xlm, usdc) = setup_test_portfolio();
    client.mint(&xlm, user, 10000).unwrap();
    client.swap(&xlm, &usdc, 1000, user, NOW, 1).unwrap();
    assert_eq!(client.get_balance(&usdc, user), 997);
}

#[test]
fn test_tier_fees_trader() {
    let (mut client, user, xlm, usdc) = setup_test_portfolio();
    client.mint(&xlm, user, 20000).unwrap();
    for i in 0..10u32 {
        client.swap(&xlm, &usdc, 10, user, NOW, i).unwrap();
    }
    let balance_before = client.get_balance(&usdc, user);
    client.swap(&xlm, &usdc, 1000, user, NOW, 11).unwrap();
    let balance_after = client.get_balance(&usdc, user);
    assert_eq!(balance_after - balance_before, 998);
}

#[test]
fn test_tier_fees_expert() {
    let (mut client, user, xlm, usdc) = setup_test_portfolio();
    client.mint(&xlm, user, 100000).unwrap();
    for i in 0..50u32 {
        client.swap(&xlm, &usdc, 100, user, NOW, i).unwrap();
    }
    let balance_before = client.get_balance(&usdc, user);
    client.swap(&xlm, &usdc, 1000, user, NOW, 51).unwrap();
    let balance_after = client.get_balance(&usdc, user);
    assert_eq!(balance_after - balance_before, 998);
}

#[test]
fn test_tier_fees_whale() {
    let (mut client, user, xlm, usdc) = setup_test_portfolio();
    client.mint(&xlm, user, 1000000).unwrap();
    for i in 0..200u32 {
        client.swap(&xlm, &usdc, 100, user, NOW, i).unwrap();
    }
    let balance_before = client.get_balance(&usdc, user);
    client.swap(&xlm, &usdc, 1000, user, NOW, 201).unwrap();
    let balance_after = client.get_balance(&usdc, user);
    assert_eq!(balance_after - balance_before, 999);
}

#[test]
fn test_swap_max_i128() {
    let (mut client, user, xlm, usdc) = setup_test_portfolio();
    let max = i128::MAX;
    client.mint(&xlm, user, max).unwrap();
    assert_eq!(client.swap(&xlm, &usdc, max, user, NOW, 1), Err(SwapFailure::ArithmeticOverflow));
    assert_eq!(client.get_balance(&xlm, user), max);
}

#[test]
fn test_swap_overflow_fee_calculation() {
    let (mut client, user, xlm, usdc) = setup_test_portfolio();
    let max = i128::MAX;
    client.mint(&xlm, user, max).unwrap();
    assert!(client.swap(&xlm, &usdc, max, user, NOW, 1).is_err());
}

#[test]
fn test_swap_large_safe_amount() {
    let (mut client, user, xlm, usdc) = setup_test_portfolio();
    let safe_max = 100_000_000_000_000_000_000;
    client.mint(&xlm, user, 100_000_000_000_000_000_000_000).unwrap();
    assert!(client.swap(&xlm, &usdc, safe_max, user, NOW, 1).is_ok());
}

#[test]
fn swap_amounts_pay_the_novice_fee() {
    for amount in [10i128, 20, 50, 100, 200, 300, 400, 500, 600, 700, 800, 900, 1000, 2000, 5000, 10000, 50000, 100000, 500000, 1000000] {
        let (mut client, user, xlm, usdc) = setup_test_portfolio();
        client.mint(&xlm, user, 1000000000).unwrap();
        let out = client.swap(&xlm, &usdc, amount, user, NOW, 1).unwrap();
        let fee = (amount * 30) / 10000;
        assert_eq!(out, amount - fee);
        assert_eq!(client.get_balance(&xlm, user), 1000000000 - amount);
    }
}

#[test]
fn reverse_swap_amounts_pay_the_novice_fee() {
    for amount in [10i128, 100, 500, 1000, 5000, 10000] {
        let (mut client, user, xlm, usdc) = setup_test_portfolio();
        client.mint(&usdc, user, 1000000000).unwrap();
        let out = client.swap(&usdc, &xlm, amount, user, NOW, 1).unwrap();
        let fee = (amount * 30) / 10000;
        assert_eq!(out, amount - fee);
    }
}
