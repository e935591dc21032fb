use swaptrade::tiers::{calculate_user_tier, UserTier};

#[test]
fn test_tier_fee_calculations() {
    let novice_fee = UserTier::Novice.effective_fee_bps();
    let trader_fee = UserTier::Trader.effective_fee_bps();
    let expert_fee = UserTier::Expert.effective_fee_bps();
    let whale_fee = UserTier::Whale.effective_fee_bps();

    assert_eq!(novice_fee, 30);
    assert_eq!(trader_fee, 25);
    assert_eq!(expert_fee, 20);
    assert_eq!(whale_fee, 15);

    let swap_amount = 10000i128;

    let novice_fee_amount = UserTier::Novice.calculate_fee(swap_amount);
    let trader_fee_amount = UserTier::Trader.calculate_fee(swap_amount);
    let expert_fee_amount = UserTier::Expert.calculate_fee(swap_amount);
    let whale_fee_amount = UserTier::Whale.calculate_fee(swap_amount);

    assert_eq!(novice_fee_amount, 30);
    assert_eq!(trader_fee_amount, 25);
    assert_eq!(expert_fee_amount, 20);
    assert_eq!(whale_fee_amount, 15);
}

#[test]
fn tier_thresholds() {
    assert_eq!(calculate_user_tier(0, 0), UserTier::Novice);
    assert_eq!(calculate_user_tier(9, 99), UserTier::Novice);
    assert_eq!(calculate_user_tier(10, 0), UserTier::Trader);
    assert_eq!(calculate_user_tier(0, 100), UserTier::Trader);
    assert_eq!(calculate_user_tier(50, 1000), UserTier::Expert);
    assert_eq!(calculate_user_tier(50, 999), UserTier::Trader);
    assert_eq!(calculate_user_tier(200, 10000), UserTier::Whale);
    assert_eq!(calculate_user_tier(199, 10000), UserTier::Expert);
}

#[test]
fn fee_rounds_toward_zero() {
    assert_eq!(UserTier::Novice.calculate_fee(333), 0);
    assert_eq!(UserTier::Novice.calculate_fee(334), 1);
    assert_eq!(UserTier::Novice.calculate_fee(-334), -1);
    assert_eq!(UserTier::Whale.calculate_fee(1_000_000), 1500);
}

#[test]
fn more_trading_never_lowers_the_tier_and_higher_tiers_pay_less() {
    assert_eq!(calculate_user_tier(9, 99), UserTier::Novice);
    assert_eq!(calculate_user_tier(10, 0), UserTier::Trader);
    assert_eq!(calculate_user_tier(50, 1000), UserTier::Expert);
    assert_eq!(calculate_user_tier(200, 10000), UserTier::Whale);
    assert_eq!(calculate_user_tier(200, 999), UserTier::Trader);
    assert_eq!(UserTier::Novice.calculate_fee(1000), 3);
    assert_eq!(UserTier::Trader.calculate_fee(1000), 2);
    assert_eq!(UserTier::Expert.calculate_fee(1000), 2);
    assert_eq!(UserTier::Whale.calculate_fee(1000), 1);
}
