use swaptrade::portfolio::{Asset, Portfolio};

#[test]
fn test_pool_stats() {
    let mut portfolio = Portfolio::new();
    assert_eq!(portfolio.get_pool_stats(), (0, 0, 0));
    portfolio.add_pool_liquidity(5000, 5000);
    let (xlm, usdc, _) = portfolio.get_pool_stats();
    assert_eq!(xlm, 5000);
    assert_eq!(usdc, 5000);
    portfolio.collect_fee(100);
    let (_, _, fees) = portfolio.get_pool_stats();
    assert_eq!(fees, 100);
}

#[test]
fn test_leaderboard_descending_order() {
    let mut portfolio = Portfolio::new();
    portfolio.mint(&Asset::XLM, 1, 100);
    portfolio.mint(&Asset::XLM, 2, 500);
    portfolio.mint(&Asset::XLM, 3, 1000);
    let leaderboard = portfolio.get_top_traders(3);
    assert_eq!(leaderboard[0].1, 1000);
}

#[test]
fn test_leaderboard_cap() {
    let mut portfolio = Portfolio::new();
    for user in 0..150u64 {
        portfolio.mint(&Asset::XLM, user, 100);
    }
    let top_traders = portfolio.get_top_traders(200);
    assert!(top_traders.len() <= 100);
    assert_eq!(top_traders.len(), 100);
}

#[test]
fn test_empty_portfolio_queries() {
    let portfolio = Portfolio::new();
    assert_eq!(portfolio.get_total_users(), 0);
    assert_eq!(portfolio.get_total_trading_volume(), 0);
    assert_eq!(portfolio.get_active_users_count(), 0);
    assert_eq!(portfolio.get_top_traders(10).len(), 0);
    assert_eq!(portfolio.get_pool_stats(), (0, 0, 0));
}

#[test]
fn test_top_traders_limit() {
    let mut portfolio = Portfolio::new();
    for i in 0..10u64 {
        portfolio.mint(&Asset::XLM, i, 1000 + (i as i128 * 100));
    }
    assert!(portfolio.get_top_traders(5).len() <= 5);
    assert!(portfolio.get_top_traders(10).len() <= 10);
    let top3 = portfolio.get_top_traders(3);
    assert_eq!(top3, vec![(9, 1900), (8, 1800), (7, 1700)]);
}

#[test]
fn test_fee_tracking() {
    let mut portfolio = Portfolio::new();
    portfolio.collect_fee(50);
    portfolio.collect_fee(100);
    portfolio.collect_fee(25);
    let (_, _, fees) = portfolio.get_pool_stats();
    assert_eq!(fees, 175);
}

#[test]
fn test_queries_readonly() {
    let portfolio = Portfolio::new();
    let initial_users = portfolio.get_total_users();
    let initial_volume = portfolio.get_total_trading_volume();
    for _ in 0..10 {
        let _ = portfolio.get_total_users();
        let _ = portfolio.get_total_trading_volume();
        let _ = portfolio.get_active_users_count();
        let _ = portfolio.get_top_traders(10);
        let _ = portfolio.get_pool_stats();
    }
    assert_eq!(portfolio.get_total_users(), initial_users);
    assert_eq!(portfolio.get_total_trading_volume(), initial_volume);
}

#[test]
fn recorded_swaps_update_dashboard_totals() {
    let mut portfolio = Portfolio::new();
    for (i, amount) in [1000i128, 1500, 2000].iter().enumerate() {
        portfolio.record_trade_with_amount(i as u64 + 1, *amount, 1000, 1);
    }
    assert_eq!(portfolio.get_total_trading_volume(), 4500);
    // The trade count is raised before the user statistics are updated,
    // so recorded swaps alone never count a user as new.
    assert_eq!(portfolio.get_total_users(), 0);
    assert_eq!(portfolio.get_active_users_count(), 0);
}

#[test]
fn leaderboard_keeps_equal_pnl_in_arrival_order() {
    let mut portfolio = Portfolio::new();
    portfolio.mint(&Asset::XLM, 1, 100);
    portfolio.mint(&Asset::XLM, 2, 100);
    portfolio.mint(&Asset::XLM, 3, 200);
    assert_eq!(portfolio.get_top_traders(10), vec![(3, 200), (1, 100), (2, 100)]);
    portfolio.mint(&Asset::XLM, 2, 50);
    assert_eq!(portfolio.get_top_traders(10), vec![(3, 200), (2, 150), (1, 100)]);
    portfolio.mint(&Asset::XLM, 1, 50);
    assert_eq!(portfolio.get_top_traders(2), vec![(3, 200), (2, 150)]);
    assert_eq!(portfolio.get_top_traders(10), vec![(3, 200), (2, 150), (1, 150)]);
}

#[test]
fn leaderboard_lists_each_trader_once() {
    let mut portfolio = Portfolio::new();
    portfolio.mint(&Asset::XLM, 1, 100);
    portfolio.mint(&Asset::XLM, 1, 100);
    portfolio.mint(&Asset::XLM, 2, 50);
    portfolio.mint(&Asset::XLM, 1, 10);
    assert_eq!(portfolio.get_top_traders(10), vec![(1, 210), (2, 50)]);
}

#[test]
fn leaderboard_stays_sorted_capped_and_unique_over_many_mints() {
    let mut portfolio = Portfolio::new();
    for user in 0..150u64 {
        portfolio.mint(&Asset::XLM, user, (user as i128 * 7) % 101 + 1);
    }
    for user in 0..150u64 {
        portfolio.mint(&Asset::XLM, user, (user as i128 * 13) % 17);
    }
    let board = portfolio.get_top_traders(200);
    assert_eq!(board.len(), 100);
    for i in 1..board.len() {
        assert!(board[i - 1].1 >= board[i].1);
    }
    for i in 0..board.len() {
        for j in (i + 1)..board.len() {
            assert_ne!(board[i].0, board[j].0);
        }
    }
}
