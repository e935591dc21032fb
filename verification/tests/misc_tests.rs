use swaptrade::fee_quote;
use swaptrade::contract::{get_stored_version, migrate_from_v1_to_v2, CounterContract};
use swaptrade::store::KeyedList;
use swaptrade::governance_simulation::{analyze_impact, get_outcome, simulate};
use swaptrade::concentration_risk::ConcentrationRisk;
use swaptrade::errors::SwapTradeError;
use swaptrade::fixed_balances::{deposit, get_balance, withdraw, FIXED_BALANCE};
use swaptrade::ping::PingContract;
use swaptrade::portfolio::{Asset, Portfolio};

#[test]
fn ping_answers_pong() {
    assert_eq!(PingContract::ping(), "pong");
}

#[test]
fn fixed_balances_hold_a_thousand() {
    let token = "XLM".to_string();
    assert_eq!(get_balance(1, &token), Some(FIXED_BALANCE));
    assert_eq!(deposit(1, &token, 0), Err(SwapTradeError::ZeroAmountSwap));
    assert!(deposit(1, &token, 5).is_ok());
    assert!(withdraw(1, &token, 1000).is_ok());
    assert_eq!(withdraw(1, &token, 1001), Err(SwapTradeError::InsufficientBalance));
}

#[test]
fn concentration_of_an_empty_portfolio_is_zero() {
    let p = Portfolio::new();
    assert_eq!(ConcentrationRisk::get_largest_position_percentage(&p, 1), 0);
    assert_eq!(ConcentrationRisk::calculate_concentration_risk(&p, 1), 0);
}

#[test]
fn a_single_asset_is_fully_concentrated() {
    let mut p = Portfolio::new();
    p.mint(&Asset::XLM, 1, 1000);
    assert_eq!(ConcentrationRisk::get_largest_position_percentage(&p, 1), 10000);
    assert_eq!(ConcentrationRisk::calculate_concentration_risk(&p, 1), 100);
    assert!(ConcentrationRisk::check_concentration_warning(&p, 1, 7000));
    assert!(ConcentrationRisk::check_concentration_limit(&p, 1, 9000));
}

#[test]
fn a_balanced_portfolio_scores_in_the_middle_band() {
    let mut p = Portfolio::new();
    p.mint(&Asset::XLM, 1, 500);
    p.mint(&Asset::Custom("USDCSIM".to_string()), 1, 500);
    assert_eq!(ConcentrationRisk::get_largest_position_percentage(&p, 1), 5000);
    assert_eq!(ConcentrationRisk::calculate_concentration_risk(&p, 1), 70);
    assert!(!ConcentrationRisk::check_concentration_warning(&p, 1, 7000));
}

#[test]
fn simulation_lookups_fall_back_to_defaults() {
    let mut store: KeyedList<String, i32> = KeyedList::new();
    let id = "PROP1".to_string();
    assert_eq!(analyze_impact(&store, &id), 50);
    assert_eq!(simulate(&store, &id), 0);
    assert_eq!(get_outcome(&store, &id), 0);
    store.set(id.clone(), 73);
    assert_eq!(analyze_impact(&store, &id), 73);
    assert_eq!(simulate(&store, &id), 73);
    assert_eq!(get_outcome(&store, &"OTHER".to_string()), 0);
}

#[test]
fn migration_stamps_once_and_sets_version_two() {
    let mut c = CounterContract::new();
    assert_eq!(get_stored_version(&c), 0);
    assert_eq!(migrate_from_v1_to_v2(&mut c, 77), Ok(()));
    assert_eq!(get_stored_version(&c), 2);
    assert_eq!(migrate_from_v1_to_v2(&mut c, 99), Ok(()));
    assert_eq!(c.get_contract_version(), 2);
}

#[test]
fn fee_quote_is_refused_while_paused() {
    assert_eq!(fee_quote::swap(true, 10_000, 25), Err(SwapTradeError::TradingPaused));
    assert_eq!(fee_quote::swap(false, 10_000, 25), Ok(25));
    assert_eq!(fee_quote::swap(false, 399, 25), Ok(0));
    assert_eq!(fee_quote::swap(false, -10_001, 25), Ok(-25));
}
