use swaptrade::contract::CounterContract;
use swaptrade::trading::SwapFailure;

const PRECISION: u128 = 1_000_000_000_000_000_000;

#[test]
fn test_stale_price() {
    let mut client = CounterContract::new();
    let xlm = "XLM".to_string();
    let usdc = "USDCSIM".to_string();
    client.set_price((xlm.clone(), usdc.clone()), PRECISION, 0);
    let user = 1u64;
    client.mint(&xlm, user, 100).unwrap();
    assert_eq!(client.swap(&xlm, &usdc, 10, user, 601, 1), Err(SwapFailure::StalePrice));
    assert_eq!(client.get_balance(&xlm, user), 100);
}

#[test]
fn fresh_price_is_used_for_the_swap() {
    let mut client = CounterContract::new();
    let xlm = "XLM".to_string();
    let usdc = "USDCSIM".to_string();
    client.set_price((xlm.clone(), usdc.clone()), PRECISION / 2, 0);
    let user = 1u64;
    client.mint(&xlm, user, 1000).unwrap();
    assert_eq!(client.swap(&xlm, &usdc, 100, user, 600, 1), Ok(50));
    assert_eq!(client.get_balance(&usdc, user), 50);
}
