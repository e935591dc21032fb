use swaptrade::portfolio::{Asset, Badge, Portfolio};

#[test]
fn test_first_trade_badge_at_one_trade() {
    let mut portfolio = Portfolio::new();
    assert!(!portfolio.has_badge(1, Badge::FirstTrade));
    portfolio.record_trade(1);
    assert!(portfolio.has_badge(1, Badge::FirstTrade));
}

#[test]
fn test_trader_badge_at_ten_trades() {
    let mut portfolio = Portfolio::new();
    let user = 1;
    portfolio.mint(&Asset::XLM, user, 1000);
    portfolio.record_initial_balance(user, 1000);
    for _ in 0..9 {
        portfolio.record_trade(user);
    }
    portfolio.check_and_award_badges(user);
    assert!(!portfolio.has_badge(user, Badge::Trader));
    portfolio.record_trade(user);
    portfolio.check_and_award_badges(user);
    assert!(portfolio.has_badge(user, Badge::Trader));
}

#[test]
fn test_wealth_builder_badge_at_10x_balance() {
    let mut portfolio = Portfolio::new();
    let user = 1;
    let starting_balance = 100i128;
    portfolio.record_initial_balance(user, starting_balance);
    portfolio.mint(&Asset::XLM, user, starting_balance);
    portfolio.check_and_award_badges(user);
    assert!(!portfolio.has_badge(user, Badge::WealthBuilder));
    portfolio.mint(&Asset::XLM, user, starting_balance * 9);
    portfolio.check_and_award_badges(user);
    assert!(portfolio.has_badge(user, Badge::WealthBuilder));
}

#[test]
fn test_liquidity_provider_badge_at_one_deposit() {
    let mut portfolio = Portfolio::new();
    assert!(!portfolio.has_badge(1, Badge::LiquidityProvider));
    portfolio.record_lp_deposit(1);
    portfolio.check_and_award_badges(1);
    assert!(portfolio.has_badge(1, Badge::LiquidityProvider));
}

#[test]
fn test_consistency_badge_at_seven_heights() {
    let mut portfolio = Portfolio::new();
    let user = 1;
    portfolio.mint(&Asset::XLM, user, 5000);
    let xlm = "XLM".to_string();
    let usd = "USD".to_string();
    for i in 0..6u64 {
        portfolio.track_trade_for_badges(user, &xlm, &usd, 1000 + i);
    }
    portfolio.check_and_award_badges(user);
    assert!(!portfolio.has_badge(user, Badge::Consistency));
    portfolio.track_trade_for_badges(user, &xlm, &usd, 1006);
    portfolio.check_and_award_badges(user);
    assert!(portfolio.has_badge(user, Badge::Consistency));
}

#[test]
fn test_diversifier_badge_at_five_pairs() {
    let mut portfolio = Portfolio::new();
    let user = 1;
    portfolio.mint(&Asset::XLM, user, 5000);
    let xlm = "XLM".to_string();
    let tokens = ["USD", "EUR", "GBP", "JPY"];
    for i in 0..4 {
        portfolio.track_trade_for_badges(user, &xlm, &tokens[i].to_string(), 100 + (i as u64));
    }
    portfolio.check_and_award_badges(user);
    assert!(!portfolio.has_badge(user, Badge::Diversifier));
    portfolio.track_trade_for_badges(user, &xlm, &"CHF".to_string(), 104);
    portfolio.check_and_award_badges(user);
    assert!(portfolio.has_badge(user, Badge::Diversifier));
}

#[test]
fn test_complex_progression_multiple_badge_types() {
    let mut portfolio = Portfolio::new();
    let user = 1;
    let starting = 100i128;
    portfolio.mint(&Asset::XLM, user, starting);
    portfolio.record_initial_balance(user, starting);
    portfolio.record_trade(user);
    portfolio.record_lp_deposit(user);
    portfolio.check_and_award_badges(user);
    assert!(portfolio.has_badge(user, Badge::FirstTrade));
    assert!(portfolio.has_badge(user, Badge::LiquidityProvider));
    for _ in 0..9 {
        portfolio.record_trade(user);
    }
    portfolio.check_and_award_badges(user);
    assert!(portfolio.has_badge(user, Badge::Trader));
    let xlm = "XLM".to_string();
    let usd = "USD".to_string();
    for (i, to) in ["USD", "EUR", "GBP", "JPY", "CHF"].iter().enumerate() {
        portfolio.track_trade_for_badges(user, &xlm, &to.to_string(), 1000 + i as u64);
    }
    portfolio.check_and_award_badges(user);
    assert!(portfolio.has_badge(user, Badge::Diversifier));
    for i in 5..12u64 {
        portfolio.track_trade_for_badges(user, &xlm, &usd, 2000 + i);
    }
    portfolio.check_and_award_badges(user);
    assert!(portfolio.has_badge(user, Badge::Consistency));
    portfolio.mint(&Asset::XLM, user, starting * 9);
    portfolio.check_and_award_badges(user);
    assert!(portfolio.has_badge(user, Badge::WealthBuilder));
    let all_badges = portfolio.get_user_badges(user);
    assert_eq!(all_badges.len(), 6);
}

#[test]
fn repeated_pairs_count_once_for_diversifier() {
    let mut portfolio = Portfolio::new();
    let user = 1;
    let (xlm, usd) = ("XLM".to_string(), "USD".to_string());
    for i in 0..5u64 {
        portfolio.track_trade_for_badges(user, &xlm, &usd, 100 + i);
    }
    portfolio.track_trade_for_badges(user, &usd, &xlm, 200);
    portfolio.check_and_award_badges(user);
    assert!(!portfolio.has_badge(user, Badge::Diversifier));
}

#[test]
fn test_badge_progress_tracking() {
    let mut portfolio = Portfolio::new();
    let user = 1;
    portfolio.mint(&Asset::XLM, user, 1000);
    portfolio.record_initial_balance(user, 1000);
    for _ in 0..3 {
        portfolio.record_trade(user);
    }
    let progress = portfolio.get_badge_progress(user);
    let mut found_trader_progress = false;
    for (badge, current, target) in progress.iter() {
        if *badge == Badge::Trader {
            assert_eq!(*current, 3);
            assert_eq!(*target, 10);
            found_trader_progress = true;
        }
    }
    assert!(found_trader_progress);
}

#[test]
fn test_all_badge_progress_returned() {
    let portfolio = Portfolio::new();
    let progress = portfolio.get_badge_progress(1);
    assert_eq!(progress.len(), 6);
    let badges: Vec<Badge> = progress.iter().map(|(b, _, _)| *b).collect();
    for b in [Badge::FirstTrade, Badge::Trader, Badge::WealthBuilder, Badge::LiquidityProvider, Badge::Diversifier, Badge::Consistency] {
        assert!(badges.contains(&b));
    }
}

#[test]
fn test_badge_conditions_independent() {
    let mut portfolio = Portfolio::new();
    let user = 1;
    portfolio.mint(&Asset::XLM, user, 1000);
    portfolio.record_initial_balance(user, 1000);
    portfolio.record_trade(user);
    assert!(portfolio.has_badge(user, Badge::FirstTrade));
    portfolio.record_lp_deposit(user);
    portfolio.check_and_award_badges(user);
    assert!(portfolio.has_badge(user, Badge::LiquidityProvider));
    for _ in 0..9 {
        portfolio.record_trade(user);
    }
    portfolio.check_and_award_badges(user);
    assert!(portfolio.has_badge(user, Badge::Trader));
    assert_eq!(portfolio.get_user_badges(user).len(), 3);
}

#[test]
fn test_10_trades_progression_earning_multiple_badges() {
    let mut portfolio = Portfolio::new();
    let user = 1;
    portfolio.mint(&Asset::XLM, user, 1000);
    portfolio.record_initial_balance(user, 1000);
    for trade_num in 1..=10 {
        portfolio.record_trade(user);
        portfolio.check_and_award_badges(user);
        let badges = portfolio.get_user_badges(user);
        if trade_num == 1 {
            assert!(badges.len() >= 1);
            assert!(portfolio.has_badge(user, Badge::FirstTrade));
        }
        if trade_num == 10 {
            assert!(portfolio.has_badge(user, Badge::FirstTrade));
            assert!(portfolio.has_badge(user, Badge::Trader));
        }
    }
    assert!(portfolio.get_user_badges(user).len() >= 2);
}

#[test]
fn test_no_duplicate_badges() {
    let mut portfolio = Portfolio::new();
    let user = 1;
    portfolio.mint(&Asset::XLM, user, 1000);
    portfolio.record_initial_balance(user, 1000);
    for _ in 0..15 {
        portfolio.record_trade(user);
        portfolio.check_and_award_badges(user);
    }
    let badges = portfolio.get_user_badges(user);
    let trader_count = badges.iter().filter(|b| **b == Badge::Trader).count();
    assert_eq!(trader_count, 1);
}

#[test]
fn test_badge_persistence_across_checks() {
    let mut portfolio = Portfolio::new();
    let user = 1;
    portfolio.mint(&Asset::XLM, user, 1000);
    portfolio.record_initial_balance(user, 1000);
    portfolio.record_trade(user);
    portfolio.check_and_award_badges(user);
    assert!(portfolio.has_badge(user, Badge::FirstTrade));
    for _ in 0..5 {
        portfolio.check_and_award_badges(user);
        assert!(portfolio.has_badge(user, Badge::FirstTrade));
    }
}

#[test]
fn test_badge_isolation_between_users() {
    let mut portfolio = Portfolio::new();
    portfolio.record_trade(1);
    assert!(portfolio.has_badge(1, Badge::FirstTrade));
    assert!(!portfolio.has_badge(2, Badge::FirstTrade));
    portfolio.record_lp_deposit(2);
    portfolio.check_and_award_badges(2);
    assert!(!portfolio.has_badge(1, Badge::LiquidityProvider));
    assert!(portfolio.has_badge(2, Badge::LiquidityProvider));
}
