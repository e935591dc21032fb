use swaptrade::contract::CounterContract;

fn s(t: &str) -> String {
    t.to_string()
}

#[test]
fn test_get_balance_returns_zero_for_new_user() {
    let client = CounterContract::new();
    assert_eq!(client.get_balance(&s("XLM"), 1), 0);
}

#[test]
fn test_get_balance_returns_zero_for_custom_token() {
    let client = CounterContract::new();
    assert_eq!(client.get_balance(&s("USDC"), 1), 0);
}

#[test]
fn test_get_balance_returns_correct_balance_after_mint() {
    let mut client = CounterContract::new();
    let amount = 1000;
    client.mint(&s("XLM"), 1, amount).unwrap();
    assert_eq!(client.get_balance(&s("XLM"), 1), amount);
}

#[test]
fn test_get_balance_returns_updated_balance_after_multiple_mints() {
    let mut client = CounterContract::new();
    let token = s("XLM");
    client.mint(&token, 1, 500).unwrap();
    assert_eq!(client.get_balance(&token, 1), 500);
    client.mint(&token, 1, 300).unwrap();
    assert_eq!(client.get_balance(&token, 1), 800);
    client.mint(&token, 1, 200).unwrap();
    assert_eq!(client.get_balance(&token, 1), 1000);
}

#[test]
fn test_get_balance_works_with_custom_tokens() {
    let mut client = CounterContract::new();
    client.mint(&s("USDC"), 1, 1000).unwrap();
    client.mint(&s("BTC"), 1, 5).unwrap();
    assert_eq!(client.get_balance(&s("USDC"), 1), 1000);
    assert_eq!(client.get_balance(&s("BTC"), 1), 5);
}

#[test]
fn test_get_balance_isolates_different_users() {
    let mut client = CounterContract::new();
    let token = s("XLM");
    client.mint(&token, 1, 1000).unwrap();
    assert_eq!(client.get_balance(&token, 1), 1000);
    assert_eq!(client.get_balance(&token, 2), 0);
    client.mint(&token, 2, 500).unwrap();
    assert_eq!(client.get_balance(&token, 1), 1000);
    assert_eq!(client.get_balance(&token, 2), 500);
}

#[test]
fn test_get_balance_isolates_different_tokens_for_same_user() {
    let mut client = CounterContract::new();
    client.mint(&s("XLM"), 1, 1000).unwrap();
    client.mint(&s("USDC"), 1, 2000).unwrap();
    assert_eq!(client.get_balance(&s("XLM"), 1), 1000);
    assert_eq!(client.get_balance(&s("USDC"), 1), 2000);
    assert_eq!(client.get_balance(&s("BTC"), 1), 0);
}

#[test]
fn test_get_balance_consistency_with_balance_of() {
    let mut client = CounterContract::new();
    let token = s("XLM");
    let amount = 1500;
    client.mint(&token, 1, amount).unwrap();
    assert_eq!(client.get_balance(&token, 1), client.balance_of(&token, 1));
    assert_eq!(client.get_balance(&token, 1), amount);
}

#[test]
fn test_get_balance_handles_large_amounts() {
    let mut client = CounterContract::new();
    let large_amount = i128::MAX / 2;
    client.mint(&s("XLM"), 1, large_amount).unwrap();
    assert_eq!(client.get_balance(&s("XLM"), 1), large_amount);
}

#[test]
fn test_get_balance_handles_zero_mint() {
    let mut client = CounterContract::new();
    client.mint(&s("XLM"), 1, 0).unwrap();
    assert_eq!(client.get_balance(&s("XLM"), 1), 0);
}

#[test]
fn test_get_balance_persistence_across_calls() {
    let mut client = CounterContract::new();
    client.mint(&s("XLM"), 1, 1000).unwrap();
    assert_eq!(client.get_balance(&s("XLM"), 1), 1000);
    assert_eq!(client.get_balance(&s("XLM"), 1), 1000);
    assert_eq!(client.get_balance(&s("XLM"), 1), 1000);
}

#[test]
fn test_try_swap_counts_failed_orders_without_panic() {
    let mut client = CounterContract::new();
    let xlm = s("XLM");
    let usdc = s("USDCSIM");
    assert_eq!(client.try_swap(&xlm, &xlm, 100, 1, 1000), Ok(0));
    assert_eq!(client.try_swap(&xlm, &s("BTC"), 100, 1, 1000), Ok(0));
    assert_eq!(client.try_swap(&xlm, &usdc, -10, 1, 1000), Ok(0));
    let m = client.get_metrics();
    assert_eq!(m.failed_orders, 3);
    assert_eq!(m.trades_executed, 0);
}

#[test]
fn mint_refuses_negative_and_overflowing_amounts() {
    let mut client = CounterContract::new();
    assert_eq!(client.mint(&s("XLM"), 1, -100), Err(swaptrade::contract::StateFailure::NegativeAmount));
    client.mint(&s("XLM"), 1, i128::MAX).unwrap();
    assert_eq!(client.mint(&s("XLM"), 1, 1), Err(swaptrade::contract::StateFailure::ArithmeticOverflow));
    assert_eq!(client.get_balance(&s("XLM"), 1), i128::MAX);
}
