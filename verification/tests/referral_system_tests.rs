use swaptrade::errors::SwapTradeError;
use swaptrade::referral_system::{
    calculate_and_distribute_commission, get_commission_balance, get_referral_stats, get_tier_for_volume,
    register_referral, withdraw_commission, ReferralLevel, ReferralNetwork,
};

const NOW: u64 = 0;

fn setup_test_env() -> (ReferralNetwork, u64, u64, u64) {
    (ReferralNetwork::new(), 1, 2, 3)
}

#[test]
fn test_register_referral_success() {
    let (mut env, referrer, referred, _) = setup_test_env();
    assert!(register_referral(&mut env, referrer, referred, NOW).is_ok());
    let stored_referrer = env.get_referrer(referred).unwrap();
    assert_eq!(stored_referrer, referrer);
    let stats = get_referral_stats(&env, referrer);
    assert_eq!(stats.direct_referrals, 1);
    assert_eq!(stats.indirect_referrals, 0);
}

#[test]
fn test_self_referral_prevention() {
    let (mut env, user, _, _) = setup_test_env();
    assert_eq!(register_referral(&mut env, user, user, NOW), Err(SwapTradeError::SelfReferral));
}

#[test]
fn test_already_referred_prevention() {
    let (mut env, referrer1, referrer2, referred) = setup_test_env();
    assert!(register_referral(&mut env, referrer1, referred, NOW).is_ok());
    assert_eq!(register_referral(&mut env, referrer2, referred, NOW), Err(SwapTradeError::AlreadyReferred));
}

#[test]
fn test_circular_referral_prevention() {
    let (mut env, user_a, user_b, _) = setup_test_env();
    assert!(register_referral(&mut env, user_a, user_b, NOW).is_ok());
    assert_eq!(register_referral(&mut env, user_b, user_a, NOW), Err(SwapTradeError::CircularReferral));
}

#[test]
fn test_indirect_circular_referral_prevention() {
    let (mut env, user_a, user_b, user_c) = setup_test_env();
    assert!(register_referral(&mut env, user_a, user_b, NOW).is_ok());
    assert!(register_referral(&mut env, user_b, user_c, NOW).is_ok());
    assert_eq!(register_referral(&mut env, user_c, user_a, NOW), Err(SwapTradeError::CircularReferral));
}

#[test]
fn test_commission_calculation_direct_only() {
    let (mut env, referrer, trader, _) = setup_test_env();
    assert!(register_referral(&mut env, referrer, trader, NOW).is_ok());
    let fee_amount = 1000;
    calculate_and_distribute_commission(&mut env, trader, fee_amount);
    let commission = get_commission_balance(&env, referrer);
    assert_eq!(commission, 5);
    let stats = get_referral_stats(&env, referrer);
    assert_eq!(stats.total_commission_earned, 5);
    assert_eq!(stats.total_referee_volume, 1000);
}

#[test]
fn test_tier_upgrade() {
    let tier_1 = get_tier_for_volume(1000);
    assert_eq!(tier_1.direct_commission_bps, 50);
    assert_eq!(tier_1.indirect_commission_bps, 20);
    let tier_2 = get_tier_for_volume(15000);
    assert_eq!(tier_2.direct_commission_bps, 75);
    assert_eq!(tier_2.indirect_commission_bps, 30);
    let tier_3 = get_tier_for_volume(60000);
    assert_eq!(tier_3.direct_commission_bps, 100);
    assert_eq!(tier_3.indirect_commission_bps, 40);
}

#[test]
fn test_withdraw_commission() {
    let (mut env, referrer, trader, _) = setup_test_env();
    assert!(register_referral(&mut env, referrer, trader, NOW).is_ok());
    calculate_and_distribute_commission(&mut env, trader, 1000);
    let withdrawn = withdraw_commission(&mut env, referrer);
    assert_eq!(withdrawn, 5);
    let balance = get_commission_balance(&env, referrer);
    assert_eq!(balance, 0);
    let withdrawn2 = withdraw_commission(&mut env, referrer);
    assert_eq!(withdrawn2, 0);
}

#[test]
fn test_multiple_referrals_same_referrer() {
    let (mut env, referrer, referred1, referred2) = setup_test_env();
    assert!(register_referral(&mut env, referrer, referred1, NOW).is_ok());
    assert!(register_referral(&mut env, referrer, referred2, NOW).is_ok());
    let stats = get_referral_stats(&env, referrer);
    assert_eq!(stats.direct_referrals, 2);
    assert_eq!(stats.indirect_referrals, 0);
    calculate_and_distribute_commission(&mut env, referred1, 1000);
    calculate_and_distribute_commission(&mut env, referred2, 2000);
    let commission = get_commission_balance(&env, referrer);
    assert_eq!(commission, 15);
}

#[test]
fn test_zero_fee_no_commission() {
    let (mut env, referrer, trader, _) = setup_test_env();
    assert!(register_referral(&mut env, referrer, trader, NOW).is_ok());
    calculate_and_distribute_commission(&mut env, trader, 0);
    let commission = get_commission_balance(&env, referrer);
    assert_eq!(commission, 0);
}

#[test]
fn test_negative_fee_no_commission() {
    let (mut env, referrer, trader, _) = setup_test_env();
    assert!(register_referral(&mut env, referrer, trader, NOW).is_ok());
    calculate_and_distribute_commission(&mut env, trader, -100);
    let commission = get_commission_balance(&env, referrer);
    assert_eq!(commission, 0);
}

#[test]
fn test_deep_referral_chain_beyond_two_levels() {
    let (mut env, level1, level2, level3) = setup_test_env();
    let level4 = 4u64;
    assert!(register_referral(&mut env, level1, level2, NOW).is_ok());
    assert!(register_referral(&mut env, level2, level3, NOW).is_ok());
    assert!(register_referral(&mut env, level3, level4, NOW).is_ok());
    calculate_and_distribute_commission(&mut env, level4, 1000);
    assert_eq!(get_commission_balance(&env, level3), 5);
    assert_eq!(get_commission_balance(&env, level2), 2);
    assert_eq!(get_commission_balance(&env, level1), 0);
}

#[test]
fn referral_record_keeps_referrer_level_and_time() {
    let (mut env, referrer, referred, _) = setup_test_env();
    assert!(register_referral(&mut env, referrer, referred, 1_700_000_000).is_ok());
    let info = env.get_referral_info(referred).unwrap();
    assert_eq!(info.referrer, referrer);
    assert_eq!(info.level, ReferralLevel::Direct);
    assert_eq!(info.registration_timestamp, 1_700_000_000);
}

#[test]
fn test_volume_tracking_and_tier_upgrade() {
    let (mut env, referrer, trader, _) = setup_test_env();
    assert!(register_referral(&mut env, referrer, trader, NOW).is_ok());
    calculate_and_distribute_commission(&mut env, trader, 5000);
    let commission1 = get_commission_balance(&env, referrer);
    assert_eq!(commission1, 25);
    calculate_and_distribute_commission(&mut env, trader, 10000);
    let commission2 = get_commission_balance(&env, referrer);
    assert_eq!(commission2, 25 + 75);
    calculate_and_distribute_commission(&mut env, trader, 40000);
    let commission3 = get_commission_balance(&env, referrer);
    assert_eq!(commission3, 25 + 75 + 400);
}

#[test]
fn tier_thresholds_are_inclusive() {
    assert_eq!(get_tier_for_volume(9_999).direct_commission_bps, 50);
    assert_eq!(get_tier_for_volume(10_000).direct_commission_bps, 75);
    assert_eq!(get_tier_for_volume(49_999).direct_commission_bps, 75);
    assert_eq!(get_tier_for_volume(50_000).direct_commission_bps, 100);
}

#[test]
fn tiny_fees_pay_no_commission() {
    let (mut env, referrer, trader, _) = setup_test_env();
    assert!(register_referral(&mut env, referrer, trader, NOW).is_ok());
    calculate_and_distribute_commission(&mut env, trader, 100);
    assert_eq!(get_commission_balance(&env, referrer), 0);
    assert_eq!(get_referral_stats(&env, referrer).total_referee_volume, 0);
}
