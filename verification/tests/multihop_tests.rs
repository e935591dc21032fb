use swaptrade::errors::SwapTradeError;
use swaptrade::multihop::{advance_hop, finish_multihop, next_hop_request, start_multihop, MultihopProgress, Route};

fn route() -> Route {
    Route {
        pools: vec![10, 20],
        tokens: vec!["XLM".to_string(), "USDC".to_string(), "BTC".to_string()],
        expected_output: 45,
        total_price_impact_bps: 0,
    }
}

#[test]
fn an_empty_route_or_amount_is_refused() {
    let empty = Route { pools: vec![], tokens: vec![], expected_output: 0, total_price_impact_bps: 0 };
    assert_eq!(start_multihop(&empty, 100).err(), Some(SwapTradeError::InvalidAmount));
    assert_eq!(start_multihop(&route(), 0).err(), Some(SwapTradeError::InvalidAmount));
}

#[test]
fn hops_split_the_slippage_and_the_last_uses_the_caller_minimum() {
    let r = route();
    let p0 = start_multihop(&r, 100).unwrap();
    assert_eq!(p0, MultihopProgress { hop: 0, amount: 100 });
    let first = next_hop_request(&r, p0, 40).unwrap();
    assert_eq!(first.pool_id, 10);
    assert_eq!(first.token_in, "XLM");
    assert_eq!(first.amount_in, 100);
    assert_eq!(first.min_amount_out, 50);
    let p1 = advance_hop(p0, 90);
    let second = next_hop_request(&r, p1, 40).unwrap();
    assert_eq!(second.pool_id, 20);
    assert_eq!(second.token_in, "USDC");
    assert_eq!(second.amount_in, 90);
    assert_eq!(second.min_amount_out, 40);
    let p2 = advance_hop(p1, 45);
    assert_eq!(finish_multihop(p2, 40), Ok(45));
    assert_eq!(finish_multihop(p2, 46), Err(SwapTradeError::SlippageExceeded));
}

#[test]
fn a_route_short_of_tokens_is_refused() {
    let r = Route { pools: vec![10, 20], tokens: vec!["XLM".to_string()], expected_output: 0, total_price_impact_bps: 0 };
    let p = advance_hop(start_multihop(&r, 100).unwrap(), 90);
    assert_eq!(next_hop_request(&r, p, 1).err(), Some(SwapTradeError::InvalidTokenSymbol));
}
