use swaptrade::contract::{CounterContract, StateFailure};
use swaptrade::portfolio::{Asset, Badge, Portfolio};
use swaptrade::tiers::UserTier;

const NOW: u64 = 1_000;

fn usdc() -> Asset {
    Asset::Custom("USDC".to_string())
}

#[test]
fn test_balance_of_returns_zero_for_new_user() {
    let portfolio = Portfolio::new();
    assert_eq!(portfolio.balance_of(&Asset::XLM, 1), 0);
}

#[test]
fn test_balance_of_returns_correct_balance_after_mint() {
    let mut portfolio = Portfolio::new();
    let amount = 1000;
    portfolio.mint(&Asset::XLM, 1, amount);
    assert_eq!(portfolio.balance_of(&Asset::XLM, 1), amount);
}

#[test]
fn test_balance_of_returns_updated_balance_after_multiple_mints() {
    let mut portfolio = Portfolio::new();
    portfolio.mint(&Asset::XLM, 1, 500);
    assert_eq!(portfolio.balance_of(&Asset::XLM, 1), 500);
    portfolio.mint(&Asset::XLM, 1, 300);
    assert_eq!(portfolio.balance_of(&Asset::XLM, 1), 800);
    portfolio.mint(&Asset::XLM, 1, 200);
    assert_eq!(portfolio.balance_of(&Asset::XLM, 1), 1000);
}

#[test]
fn test_balance_of_works_with_custom_assets() {
    let mut portfolio = Portfolio::new();
    let custom_asset = usdc();
    portfolio.mint(&custom_asset, 1, 2000);
    assert_eq!(portfolio.balance_of(&custom_asset, 1), 2000);
}

#[test]
fn test_balance_of_isolates_different_users() {
    let mut portfolio = Portfolio::new();
    portfolio.mint(&Asset::XLM, 1, 1000);
    assert_eq!(portfolio.balance_of(&Asset::XLM, 1), 1000);
    assert_eq!(portfolio.balance_of(&Asset::XLM, 2), 0);
}

#[test]
fn test_award_first_trade_badge() {
    let mut portfolio = Portfolio::new();
    let user = 1;
    assert_eq!(portfolio.get_user_badges(user).len(), 0);
    assert_eq!(portfolio.has_badge(user, Badge::FirstTrade), false);
    portfolio.record_trade(user);
    assert_eq!(portfolio.has_badge(user, Badge::FirstTrade), true);
    assert_eq!(portfolio.get_user_badges(user).len(), 1);
}

#[test]
fn test_prevent_duplicate_badge_assignment() {
    let mut portfolio = Portfolio::new();
    let user = 1;
    portfolio.record_trade(user);
    assert_eq!(portfolio.has_badge(user, Badge::FirstTrade), true);
    assert_eq!(portfolio.get_user_badges(user).len(), 1);
    portfolio.record_trade(user);
    assert_eq!(portfolio.has_badge(user, Badge::FirstTrade), true);
    assert_eq!(portfolio.get_user_badges(user).len(), 1);
    portfolio.record_trade(user);
    assert_eq!(portfolio.has_badge(user, Badge::FirstTrade), true);
    assert_eq!(portfolio.get_user_badges(user).len(), 1);
}

#[test]
fn test_badges_are_user_specific() {
    let mut portfolio = Portfolio::new();
    portfolio.record_trade(1);
    assert_eq!(portfolio.has_badge(1, Badge::FirstTrade), true);
    assert_eq!(portfolio.has_badge(2, Badge::FirstTrade), false);
    portfolio.record_trade(2);
    assert_eq!(portfolio.has_badge(1, Badge::FirstTrade), true);
    assert_eq!(portfolio.has_badge(2, Badge::FirstTrade), true);
    assert_eq!(portfolio.get_user_badges(1).len(), 1);
    assert_eq!(portfolio.get_user_badges(2).len(), 1);
}

#[test]
fn test_badge_persistence() {
    let mut portfolio = Portfolio::new();
    portfolio.record_trade(1);
    assert_eq!(portfolio.has_badge(1, Badge::FirstTrade), true);
    assert_eq!(portfolio.has_badge(1, Badge::FirstTrade), true);
    assert_eq!(portfolio.has_badge(1, Badge::FirstTrade), true);
    assert_eq!(portfolio.get_user_badges(1).len(), 1);
}

#[test]
fn test_new_user_has_no_badges() {
    let portfolio = Portfolio::new();
    assert_eq!(portfolio.has_badge(1, Badge::FirstTrade), false);
    assert_eq!(portfolio.get_user_badges(1).len(), 0);
}

#[test]
fn test_rewards_integrate_with_trade_counting() {
    let mut portfolio = Portfolio::new();
    let (trades_before, _) = portfolio.get_portfolio(1);
    assert_eq!(trades_before, 0);
    portfolio.record_trade(1);
    let (trades_after_first, _) = portfolio.get_portfolio(1);
    assert_eq!(trades_after_first, 1);
    assert_eq!(portfolio.has_badge(1, Badge::FirstTrade), true);
    portfolio.record_trade(1);
    portfolio.record_trade(1);
    let (trades_after_multiple, _) = portfolio.get_portfolio(1);
    assert_eq!(trades_after_multiple, 3);
    assert_eq!(portfolio.has_badge(1, Badge::FirstTrade), true);
    assert_eq!(portfolio.get_user_badges(1).len(), 1);
}

#[test]
fn test_new_user_starts_as_novice() {
    let portfolio = Portfolio::new();
    assert_eq!(portfolio.get_user_tier(1), UserTier::Novice);
}

#[test]
fn tier_rises_to_trader_at_ten_trades() {
    let mut portfolio = Portfolio::new();
    let user = 1;
    assert_eq!(portfolio.get_user_tier(user), UserTier::Novice);
    for _ in 0..9 {
        portfolio.record_trade(user);
    }
    assert_eq!(portfolio.get_user_tier(user), UserTier::Novice);
    portfolio.record_trade(user);
    assert_eq!(portfolio.get_user_tier(user), UserTier::Trader);
    for _ in 0..40 {
        portfolio.record_trade(user);
    }
    assert_eq!(portfolio.get_user_tier(user), UserTier::Trader);
}

#[test]
fn tier_rises_to_trader_at_hundred_volume() {
    let mut portfolio = Portfolio::new();
    let user = 1;
    assert_eq!(portfolio.get_user_tier(user), UserTier::Novice);
    portfolio.record_trade_with_amount(user, 99, NOW, 1);
    assert_eq!(portfolio.get_user_tier(user), UserTier::Novice);
    portfolio.record_trade_with_amount(user, 1, NOW, 2);
    assert_eq!(portfolio.get_user_tier(user), UserTier::Trader);
    portfolio.record_trade_with_amount(user, 899, NOW, 3);
    assert_eq!(portfolio.get_user_tier(user), UserTier::Trader);
}

#[test]
fn test_tier_update_functionality() {
    let mut portfolio = Portfolio::new();
    let user = 1;
    let (initial_tier, changed) = portfolio.update_tier(user);
    assert_eq!(initial_tier, UserTier::Novice);
    assert_eq!(changed, false);
    for _ in 0..10 {
        portfolio.record_trade(user);
    }
    let (new_tier, changed) = portfolio.update_tier(user);
    assert_eq!(new_tier, UserTier::Trader);
    assert_eq!(changed, true);
    let (same_tier, changed) = portfolio.update_tier(user);
    assert_eq!(same_tier, UserTier::Trader);
    assert_eq!(changed, false);
}

#[test]
fn test_user_tier_isolation() {
    let mut portfolio = Portfolio::new();
    assert_eq!(portfolio.get_user_tier(1), UserTier::Novice);
    assert_eq!(portfolio.get_user_tier(2), UserTier::Novice);
    for _ in 0..10 {
        portfolio.record_trade(1);
    }
    assert_eq!(portfolio.get_user_tier(1), UserTier::Trader);
    assert_eq!(portfolio.get_user_tier(2), UserTier::Novice);
    for i in 0..50u32 {
        portfolio.record_trade_with_amount(2, 20, NOW, i);
    }
    assert_eq!(portfolio.get_user_tier(1), UserTier::Trader);
    assert_eq!(portfolio.get_user_tier(2), UserTier::Expert);
}

#[test]
fn transfer_asset_conserves_the_users_total() {
    let mut p = Portfolio::new();
    p.mint(&Asset::XLM, 1, 500);
    p.transfer_asset(&Asset::XLM, &usdc(), 1, 200);
    assert_eq!(p.balance_of(&Asset::XLM, 1), 300);
    assert_eq!(p.balance_of(&usdc(), 1), 200);
    assert_eq!(p.get_metrics().balances_updated, 3);
}

#[test]
fn debit_and_credit_move_balance_and_pnl() {
    let mut p = Portfolio::new();
    p.mint(&Asset::XLM, 1, 500);
    p.debit(&Asset::XLM, 1, 200);
    assert_eq!(p.balance_of(&Asset::XLM, 1), 300);
    assert_eq!(p.get_portfolio(1).1, 300);
    p.credit(&usdc(), 1, 50);
    assert_eq!(p.balance_of(&usdc(), 1), 50);
    assert_eq!(p.get_portfolio(1).1, 350);
}

#[test]
fn award_badge_is_idempotent() {
    let mut p = Portfolio::new();
    assert!(p.award_badge(1, Badge::Trader));
    assert!(!p.award_badge(1, Badge::Trader));
    assert_eq!(p.get_user_badges(1), vec![Badge::Trader]);
}

#[test]
fn failed_orders_are_counted() {
    let mut p = Portfolio::new();
    p.inc_failed_order();
    p.inc_failed_order();
    assert_eq!(p.get_metrics().failed_orders, 2);
}

#[test]
fn leaderboard_keeps_users_sorted_by_pnl() {
    let mut p = Portfolio::new();
    p.mint(&Asset::XLM, 1, 100);
    p.mint(&Asset::XLM, 2, 300);
    p.mint(&Asset::XLM, 3, 200);
    assert_eq!(p.get_top_traders(10), vec![(2, 300), (3, 200), (1, 100)]);
    assert_eq!(p.get_top_traders(2), vec![(2, 300), (3, 200)]);
    p.mint(&Asset::XLM, 1, 500);
    assert_eq!(p.get_top_traders(1), vec![(1, 600)]);
}

#[test]
fn test_mint_negative_should_panic() {
    let mut client = CounterContract::new();
    let user = 1u64;
    let xlm = "XLM".to_string();
    assert_eq!(client.mint(&xlm, user, -100), Err(StateFailure::NegativeAmount));
    assert_eq!(client.get_balance(&xlm, user), 0);
}
