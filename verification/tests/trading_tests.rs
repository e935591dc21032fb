use swaptrade::contract::CounterContract;
use swaptrade::liquidity::LiquidityFailure;
use swaptrade::trading::SwapFailure;

const NOW: u64 = 1_000;

fn setup() -> (CounterContract, String, String) {
    (CounterContract::new(), "XLM".to_string(), "USDC-SIM".to_string())
}

#[test]
fn test_swap_insufficient_balance_panics() {
    let (mut client, xlm, usdc) = setup();
    let user = 1u64;
    assert_eq!(client.swap(&xlm, &usdc, 100, user, NOW, 1), Err(SwapFailure::InsufficientFunds));
}

#[test]
fn test_try_swap_handles_invalid_inputs_and_counts_failed() {
    let (mut client, xlm, usdc) = setup();
    let user = 1u64;
    let out = client.try_swap(&xlm, &xlm, 100, user, NOW).unwrap();
    assert_eq!(out, 0);
    let out2 = client.try_swap(&xlm, &usdc, -10, user, NOW).unwrap();
    assert_eq!(out2, 0);
    let m = client.get_metrics();
    assert!(m.failed_orders >= 2);
}

#[test]
fn test_swap_precision_truncation() {
    let (mut client, xlm, usdc) = setup();
    let user = 1u64;
    client.mint(&xlm, user, 3).unwrap();
    let out = client.swap(&xlm, &usdc, 1, user, NOW, 1).unwrap();
    assert_eq!(out, 1);
    assert_eq!(client.get_balance(&xlm, user), 2);
    assert_eq!(client.get_balance(&usdc, user), 1);
}

#[test]
fn test_amm_round_trip_identity() {
    let (mut client, xlm, usdc) = setup();
    let user = 1u64;
    client.mint(&xlm, user, 1000).unwrap();
    let out1 = client.swap(&xlm, &usdc, 250, user, NOW, 1).unwrap();
    assert_eq!(out1, 250);
    let out2 = client.swap(&usdc, &xlm, 250, user, NOW, 2).unwrap();
    assert_eq!(out2, 250);
    assert_eq!(client.get_balance(&xlm, user), 1000);
    assert_eq!(client.get_balance(&usdc, user), 0);
}

#[test]
fn test_concurrent_like_swaps_isolation() {
    let (mut client, xlm, usdc) = setup();
    let user1 = 1u64;
    let user2 = 2u64;
    client.mint(&xlm, user1, 500).unwrap();
    client.mint(&xlm, user2, 300).unwrap();
    let u1_out = client.swap(&xlm, &usdc, 200, user1, NOW, 1).unwrap();
    assert_eq!(u1_out, 200);
    let u2_out = client.swap(&xlm, &usdc, 300, user2, NOW, 2).unwrap();
    assert_eq!(u2_out, 300);
    assert_eq!(client.get_balance(&xlm, user1), 300);
    assert_eq!(client.get_balance(&usdc, user1), 200);
    assert_eq!(client.get_balance(&xlm, user2), 0);
    assert_eq!(client.get_balance(&usdc, user2), 300);
}

#[test]
fn test_swap_zero_amount_panics() {
    let (mut client, xlm, usdc) = setup();
    let user = 1u64;
    client.mint(&xlm, user, 100).unwrap();
    assert_eq!(client.swap(&xlm, &usdc, 0, user, NOW, 1), Err(SwapFailure::NonPositiveAmount));
    assert_eq!(client.get_balance(&xlm, user), 100);
}

#[test]
fn test_migration_v1_to_v2() {
    let mut client = CounterContract::new();
    client.initialize();
    assert_eq!(client.get_contract_version(), 1);
    let user = 1u64;
    let xlm = "XLM".to_string();
    client.mint(&xlm, user, 1000).unwrap();
    assert_eq!(client.get_balance(&xlm, user), 1000);
    client.migrate(NOW).unwrap();
    assert_eq!(client.get_contract_version(), 2);
    assert_eq!(client.get_balance(&xlm, user), 1000);
    client.migrate(NOW).unwrap();
    assert_eq!(client.get_contract_version(), 2);
}

#[test]
fn swap_charges_the_novice_fee_before_converting() {
    let (mut client, xlm, usdc) = setup();
    let user = 1u64;
    client.mint(&xlm, user, 1000).unwrap();
    let out = client.swap(&xlm, &usdc, 500, user, NOW, 1).unwrap();
    assert_eq!(out, 499);
    assert_eq!(client.get_balance(&xlm, user), 500);
    assert_eq!(client.get_balance(&usdc, user), 499);
    assert_eq!(client.get_pool_stats().2, 1);
}

#[test]
fn pool_swap_never_raises_the_constant_product() {
    let mut client = CounterContract::new();
    let (xlm, usdc) = ("XLM".to_string(), "USDCSIM".to_string());
    let user = 1u64;
    client.mint(&xlm, user, 5000).unwrap();
    client.mint(&usdc, user, 5000).unwrap();
    let lp = client.add_liquidity(1000, 1000, user).unwrap();
    assert_eq!(lp, 1000);
    let (x0, u0, _) = client.get_pool_stats();
    assert_eq!((x0, u0), (1000, 1000));
    let out = client.swap(&xlm, &usdc, 100, user, NOW, 1).unwrap();
    assert_eq!(out, 90);
    // The XLM reserve is credited with 1000 * 90 / 910 = 98, the most that
    // keeps the product from growing.
    let (x1, u1, _) = client.get_pool_stats();
    assert_eq!((x1, u1), (1098, 910));
    assert!(x1 * u1 <= x0 * u0);
    // The XLM share (1098) now exceeds 101% of the XLM deposited, so the
    // withdrawal is refused and the pool is left as it was.
    assert_eq!(client.remove_liquidity(lp, user), Err(LiquidityFailure::ExceedsDeposit));
    assert_eq!(client.get_pool_stats().0, 1098);
}

#[test]
fn small_pool_swap_keeps_product_below_start() {
    let mut client = CounterContract::new();
    let (xlm, usdc) = ("XLM".to_string(), "USDCSIM".to_string());
    let user = 2u64;
    client.mint(&xlm, user, 1000).unwrap();
    client.mint(&usdc, user, 1000).unwrap();
    assert_eq!(client.add_liquidity(100, 100, user).unwrap(), 100);
    let out = client.swap(&xlm, &usdc, 10, user, NOW, 10000).unwrap();
    assert_eq!(out, 8);
    let (x1, u1, _) = client.get_pool_stats();
    assert_eq!((x1, u1), (108, 92));
    assert!(x1 * u1 <= 100 * 100);
    // The user gave 10 XLM and got the 8 USDC the pool paid out.
    assert_eq!(client.balance_of(&xlm, user), 890);
    assert_eq!(client.balance_of(&usdc, user), 908);
}
