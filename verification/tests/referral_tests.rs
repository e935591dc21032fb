use swaptrade::contract::CounterContract;
use swaptrade::referral::{create_random_code, ReferralError, ReferralSystem};

fn xlm() -> String {
    "XLM".to_string()
}

#[test]
fn test_generate_referral_code() {
    let mut client = CounterContract::new();
    let user = 1u64;
    let code = client.generate_referral_code(user, 0).unwrap();
    assert!(!code.is_empty());
    assert_eq!(client.get_referral_code(user), code);
}

#[test]
fn test_register_with_referral() {
    let mut client = CounterContract::new();
    let referrer = 1u64;
    let referee = 2u64;
    let code = client.generate_referral_code(referrer, 0).unwrap();
    let result = client.register_with_referral(&code, referee);
    assert!(result.is_ok());
    let referrals = client.get_referrals(referrer);
    assert_eq!(referrals.len(), 1);
    assert_eq!(referrals[0], referee);
}

#[test]
fn test_referral_rewards_accumulation() {
    let mut client = CounterContract::new();
    let referrer = 1u64;
    let referee = 2u64;
    let code = client.generate_referral_code(referrer, 0).unwrap();
    let result = client.register_with_referral(&code, referee);
    assert!(result.is_ok());
    client.mint(&xlm(), referee, 1000).unwrap();
    let initial_rewards = client.get_referral_rewards(referrer);
    assert_eq!(initial_rewards, 0);
}

#[test]
fn test_referee_discount_application() {
    let mut client = CounterContract::new();
    let referrer = 1u64;
    let referee = 2u64;
    let code = client.generate_referral_code(referrer, 0).unwrap();
    let result = client.register_with_referral(&code, referee);
    assert!(result.is_ok());
}

#[test]
fn test_get_referrals() {
    let mut client = CounterContract::new();
    let referrer = 1u64;
    let referee1 = 2u64;
    let referee2 = 3u64;
    let code = client.generate_referral_code(referrer, 0).unwrap();
    assert!(client.register_with_referral(&code, referee1).is_ok());
    assert!(client.register_with_referral(&code, referee2).is_ok());
    let referrals = client.get_referrals(referrer);
    assert_eq!(referrals.len(), 2);
    let mut found_referee1 = false;
    let mut found_referee2 = false;
    for addr in referrals.iter() {
        if *addr == referee1 {
            found_referee1 = true;
        }
        if *addr == referee2 {
            found_referee2 = true;
        }
    }
    assert!(found_referee1);
    assert!(found_referee2);
}

#[test]
fn test_invalid_referral_code() {
    let mut client = CounterContract::new();
    let invalid_code = "INVALID".to_string();
    let new_user = 7u64;
    let result = client.register_with_referral(&invalid_code, new_user);
    assert!(result.is_err());
    assert_eq!(result.unwrap_err().message(), "Invalid referral code");
}

#[test]
fn test_self_referral_rejection() {
    let mut client = CounterContract::new();
    let user = 1u64;
    let code = client.generate_referral_code(user, 0).unwrap();
    let result = client.register_with_referral(&code, user);
    assert!(result.is_err());
    assert_eq!(result.unwrap_err().message(), "Cannot refer yourself");
}

#[test]
fn test_claim_referral_rewards() {
    let mut client = CounterContract::new();
    let user = 1u64;
    assert_eq!(client.get_referral_rewards(user), 0);
    let claimed = client.claim_referral_rewards(user);
    assert_eq!(claimed, 0);
    assert_eq!(client.get_referral_rewards(user), 0);
}

#[test]
fn test_cannot_refer_self_or_create_circular_refs() {
    let mut client = CounterContract::new();
    let user = 1u64;
    let code = client.generate_referral_code(user, 0).unwrap();
    let result = client.register_with_referral(&code, user);
    assert!(result.is_err());
    assert_eq!(result.unwrap_err().message(), "Cannot refer yourself");
}

#[test]
fn codes_are_eight_characters_of_the_alphabet() {
    for (seq, attempt) in [(0u32, 0u32), (17, 3), (123_456, 999), (u32::MAX, 1000)] {
        let code = create_random_code(seq, attempt);
        assert_eq!(code.len(), 8);
        assert!(code.chars().all(|c| c.is_ascii_uppercase() || c.is_ascii_digit()));
    }
    assert_eq!(create_random_code(0, 0), "AAAAAAAA");
    assert_eq!(create_random_code(1, 36), "BBAAAAAA");
}

#[test]
fn second_code_request_returns_the_same_code() {
    let mut system = ReferralSystem::new();
    let first = system.generate_referral_code(5, 10).unwrap();
    let second = system.generate_referral_code(5, 99).unwrap();
    assert_eq!(first, second);
}

#[test]
fn colliding_codes_move_to_the_next_candidate() {
    let mut system = ReferralSystem::new();
    let first = system.generate_referral_code(1, 42).unwrap();
    let second = system.generate_referral_code(2, 42).unwrap();
    assert_ne!(first, second);
    assert_eq!(second, create_random_code(42, 1));
}

#[test]
fn a_registered_user_cannot_register_twice() {
    let mut system = ReferralSystem::new();
    let code = system.generate_referral_code(1, 0).unwrap();
    let other = system.generate_referral_code(4, 0).unwrap();
    assert!(system.register_with_referral(&code, 2).is_ok());
    let again = system.register_with_referral(&other, 2);
    assert_eq!(again, Err(ReferralError::AlreadyReferred));
    assert_eq!(again.unwrap_err().message(), "User already has a referrer");
    assert_eq!(system.register_with_referral(&code, 2), Err(ReferralError::AlreadyReferred));
    assert_eq!(system.get_referrals(1), vec![2]);
    assert!(system.get_referrals(4).is_empty());
}

#[test]
fn test_duplicate_registration_prevention() {
    let mut client = CounterContract::new();
    let referrer1 = 1u64;
    let referrer2 = 2u64;
    let referee = 3u64;
    let code1 = client.generate_referral_code(referrer1, 0).unwrap();
    let code2 = client.generate_referral_code(referrer2, 0).unwrap();
    assert!(client.register_with_referral(&code1, referee).is_ok());
    let result = client.register_with_referral(&code2, referee);
    assert!(result.is_err());
    assert_eq!(result.unwrap_err().message(), "User already has a referrer");
}

#[test]
fn trades_of_a_referee_pay_the_referrer_and_discount_the_referee() {
    let mut system = ReferralSystem::new();
    let code = system.generate_referral_code(1, 0).unwrap();
    system.register_with_referral(&code, 2).unwrap();
    let discount = system.process_trade_for_referral(2, 1000);
    assert_eq!(discount, 10);
    assert_eq!(system.get_referral_rewards(1), 50);
    assert_eq!(system.claim_referral_rewards(1), 50);
    assert_eq!(system.claim_referral_rewards(1), 0);
    assert_eq!(system.get_referral_rewards(1), 0);
}

#[test]
fn unreferred_traders_get_no_discount() {
    let mut system = ReferralSystem::new();
    assert_eq!(system.process_trade_for_referral(9, 1000), 0);
    assert_eq!(system.get_referral_rewards(9), 0);
}
