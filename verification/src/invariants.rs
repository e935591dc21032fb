//! Invariant checks: predicates over pool reserves, fees, slippage, balance
//! updates, LP positions and monotone counters, and the combined checks run
//! after swaps, liquidity changes and batches.

use vstd::prelude::*;
use crate::errors::ContractError;
use crate::math::{clamp_i128, clamp_u128, wrap_u128, sat_mul_u128, sat_sub_i128, sat_add_i128, to_u128_bits};
use crate::portfolio::{Asset, LPPosition, Portfolio, PortfolioView, badges_held};
use crate::symbols::usdcsim_symbol;

verus! {

/// Maximum allowed fee in basis points (1%).
pub const MAX_FEE_BPS: i128 = 100;

/// Constant product of two reserves as the check computes it: each reserve
/// read as `u128` bits, the product saturating at `u128::MAX`.
pub open spec fn spec_k(x: i128, y: i128) -> int {
    clamp_u128(wrap_u128(x) * wrap_u128(y))
}

/// The AMM constant-product check: reserves stay non-negative and the
/// product does not grow.
pub open spec fn spec_amm_constant_product(xb: i128, ub: i128, xa: i128, ua: i128) -> bool {
    xa >= 0 && ua >= 0 && spec_k(xa, ua) <= spec_k(xb, ub)
}

/// The fee-bounds check: a fee is non-negative, zero on a zero amount, and
/// at most 1% of the amount (rounded toward zero).
pub open spec fn spec_fee_bounds(amount: i128, fee: i128) -> bool {
    if fee < 0 {
        false
    } else if amount == 0 {
        fee == 0
    } else {
        fee <= crate::tiers::bps_fee(amount as int, MAX_FEE_BPS as int)
    }
}

/// The slippage check: shortfall of `actual` below `expected`, in basis
/// points of `expected` rounded down, is within `max_bps`.
pub open spec fn spec_slippage_bounds(expected: u128, actual: u128, max_bps: u32) -> bool {
    if expected == 0 {
        actual == 0
    } else if actual > expected {
        true
    } else {
        ((expected - actual) * 10000) / (expected as int) <= max_bps
    }
}

/// INVARIANT: AMM constant product. Reserves after a swap are non-negative
/// and `x * y` does not increase (fees only shrink it).
pub fn invariant_amm_constant_product(
    xlm_before: i128,
    usdc_before: i128,
    xlm_after: i128,
    usdc_after: i128,
) -> (ok: bool)
    ensures
        ok == spec_amm_constant_product(xlm_before, usdc_before, xlm_after, usdc_after),
{
    if xlm_after < 0 || usdc_after < 0 {
        return false;
    }
    let k_before = sat_mul_u128(to_u128_bits(xlm_before), to_u128_bits(usdc_before));
    let k_after = sat_mul_u128(to_u128_bits(xlm_after), to_u128_bits(usdc_after));
    k_after <= k_before
}

/// INVARIANT: fee bounds. `fee >= 0`, a zero amount has a zero fee, and
/// `fee <= amount * 100 / 10000`. The product `amount * 100` must fit.
pub fn invariant_fee_bounds(amount: i128, fee: i128) -> (ok: bool)
    requires
        i128::MIN <= amount * MAX_FEE_BPS <= i128::MAX,
    ensures
        ok == spec_fee_bounds(amount, fee),
{
    if fee < 0 {
        return false;
    }
    if amount == 0 {
        return fee == 0;
    }
    let max_fee = (amount * MAX_FEE_BPS) / 10000;
    fee <= max_fee
}

/// INVARIANT: slippage bounds. A better-than-expected output always passes;
/// otherwise the shortfall in basis points must be within the limit. The
/// product `(expected - actual) * 10000` must fit in a `u128`.
pub fn invariant_slippage_bounds(
    expected_output: u128,
    actual_output: u128,
    max_slippage_bps: u32,
) -> (ok: bool)
    requires
        actual_output <= expected_output ==> (expected_output - actual_output) * 10000 <= u128::MAX,
    ensures
        ok == spec_slippage_bounds(expected_output, actual_output, max_slippage_bps),
{
    if expected_output == 0 {
        return actual_output == 0;
    }
    if actual_output > expected_output {
        return true;
    }
    let slippage = ((expected_output - actual_output) * 10000) / expected_output;
    slippage <= max_slippage_bps as u128
}

/// INVARIANT: balance update consistency. `balance_after` equals
/// `balance_before - debit + credit`, each step saturating.
pub fn invariant_balance_update_consistency(
    balance_before: i128,
    debit_amount: i128,
    credit_amount: i128,
    balance_after: i128,
) -> (ok: bool)
    ensures
        ok == (balance_after == clamp_i128(clamp_i128(balance_before - debit_amount) + credit_amount)),
{
    let calculated = sat_add_i128(sat_sub_i128(balance_before, debit_amount), credit_amount);
    calculated == balance_after
}

/// INVARIANT: rate-limit counters never decrease within a window.
pub fn invariant_rate_limit_monotonic(previous_count: u32, current_count: u32) -> (ok: bool)
    ensures
        ok == (current_count >= previous_count),
{
    current_count >= previous_count
}

/// INVARIANT: the contract version only increases.
pub fn invariant_version_monotonic(previous_version: u32, current_version: u32) -> (ok: bool)
    ensures
        ok == (current_version >= previous_version),
{
    current_version >= previous_version
}

/// INVARIANT: ledger timestamps never go backwards.
pub fn invariant_timestamp_monotonic(previous_timestamp: u64, current_timestamp: u64) -> (ok: bool)
    ensures
        ok == (current_timestamp >= previous_timestamp),
{
    current_timestamp >= previous_timestamp
}

/// Verify batch counters: successes and failures add up to the operation
/// count, an atomic batch never mixes successes and failures, and neither
/// count exceeds the operation count. The sum must fit in a `u32`.
pub fn verify_batch_invariants(
    operations_count: u32,
    success_count: u32,
    failure_count: u32,
    is_atomic: bool,
) -> (r: Result<(), ContractError>)
    requires
        success_count + failure_count <= u32::MAX,
    ensures
        r is Ok <==> (
            success_count + failure_count == operations_count
            && !(is_atomic && failure_count > 0 && success_count > 0)
            && success_count <= operations_count
            && failure_count <= operations_count),
        r is Err ==> r == Err::<(), ContractError>(ContractError::InvariantViolation),
{
    let mut passed = true;
    if success_count + failure_count != operations_count {
        passed = false;
    }
    if is_atomic && failure_count > 0 && success_count > 0 {
        passed = false;
    }
    if success_count > operations_count || failure_count > operations_count {
        passed = false;
    }
    if passed {
        Ok(())
    } else {
        Err(ContractError::InvariantViolation)
    }
}

/// Verify a swap: the constant product holds, a positive input gives a
/// positive output, the fee is within bounds and reserves stay non-negative.
/// The product `input_amount * 100` must fit in an `i128`.
pub fn verify_swap_invariants(
    xlm_before: i128,
    usdc_before: i128,
    xlm_after: i128,
    usdc_after: i128,
    input_amount: i128,
    output_amount: i128,
    fee_amount: i128,
) -> (r: Result<(), ContractError>)
    requires
        i128::MIN <= input_amount * MAX_FEE_BPS <= i128::MAX,
    ensures
        r is Ok <==> (
            spec_amm_constant_product(xlm_before, usdc_before, xlm_after, usdc_after)
            && !(input_amount > 0 && output_amount <= 0)
            && spec_fee_bounds(input_amount, fee_amount)
            && xlm_after >= 0 && usdc_after >= 0),
        r is Err ==> r == Err::<(), ContractError>(ContractError::InvariantViolation),
{
    let mut passed = true;
    if !invariant_amm_constant_product(xlm_before, usdc_before, xlm_after, usdc_after) {
        passed = false;
    }
    if input_amount > 0 && output_amount <= 0 {
        passed = false;
    }
    if !invariant_fee_bounds(input_amount, fee_amount) {
        passed = false;
    }
    if xlm_after < 0 || usdc_after < 0 {
        passed = false;
    }
    if passed {
        Ok(())
    } else {
        Err(ContractError::InvariantViolation)
    }
}

/// Result of a combined invariant check: whether all passed, and the names
/// of those that failed, in the order they were checked.
pub struct InvariantCheck {
    pub passed: bool,
    pub failed_checks: Vec<String>,
}

impl InvariantCheck {
    /// A check with nothing recorded yet.
    pub fn new() -> (c: InvariantCheck)
        ensures
            c.passed,
            c.failed_checks@.len() == 0,
    {
        InvariantCheck { passed: true, failed_checks: Vec::new() }
    }

    /// Record that the check named `check_name` failed.
    pub fn record_failure(&mut self, check_name: String)
        ensures
            !final(self).passed,
            final(self).failed_checks@ == old(self).failed_checks@.push(check_name),
    {
        self.passed = false;
        self.failed_checks.push(check_name);
    }
}

/// Pool reserves (the aggregate of user positions) are non-negative.
pub open spec fn spec_non_negative_balances(p: PortfolioView) -> bool {
    p.xlm_in_pool >= 0 && p.usdc_in_pool >= 0
}

/// LP token total is non-negative.
pub open spec fn spec_lp_token_conservation(p: PortfolioView) -> bool {
    p.total_lp_tokens >= 0
}

/// Collected swap fees and LP fees are non-negative.
pub open spec fn spec_fee_accumulation_non_negative(p: PortfolioView) -> bool {
    p.total_fees_collected >= 0 && p.lp_fees_accumulated >= 0
}

/// Active users do not outnumber counted users.
pub open spec fn spec_user_counts_consistent(p: PortfolioView) -> bool {
    (p.active_users.len() as u32) <= p.total_users
}

/// An LP position has non-negative fields, and minted tokens imply two
/// positive deposits.
pub open spec fn spec_lp_position_integrity(pos: LPPosition) -> bool {
    pos.lp_tokens_minted >= 0 && pos.xlm_deposited >= 0 && pos.usdc_deposited >= 0
        && (pos.lp_tokens_minted == 0 || (pos.xlm_deposited > 0 && pos.usdc_deposited > 0))
}

/// All the state invariants of a portfolio.
pub open spec fn spec_contract_invariants(p: PortfolioView) -> bool {
    spec_non_negative_balances(p)
        && spec_lp_token_conservation(p)
        && spec_fee_accumulation_non_negative(p)
        && spec_user_counts_consistent(p)
}

/// INVARIANT: pool reserves, the aggregate of all positions, are
/// non-negative.
pub fn invariant_non_negative_balances(portfolio: &Portfolio) -> (ok: bool)
    ensures
        ok == spec_non_negative_balances(portfolio@),
{
    let usdc = Asset::Custom(usdcsim_symbol());
    portfolio.get_liquidity(&Asset::XLM) >= 0 && portfolio.get_liquidity(&usdc) >= 0
}

/// INVARIANT: the AMM pool never holds negative reserves.
pub fn invariant_pool_liquidity_non_negative(portfolio: &Portfolio) -> (ok: bool)
    ensures
        ok == spec_non_negative_balances(portfolio@),
{
    let stats = portfolio.get_pool_stats();
    stats.0 >= 0 && stats.1 >= 0
}

/// INVARIANT: the LP token total is non-negative.
pub fn invariant_lp_token_conservation(portfolio: &Portfolio) -> (ok: bool)
    ensures
        ok == spec_lp_token_conservation(portfolio@),
{
    portfolio.get_total_lp_tokens() >= 0
}

/// INVARIANT: metrics counters are non-negative. They are unsigned, so this
/// always holds.
pub fn invariant_metrics_non_negative(portfolio: &Portfolio) -> (ok: bool)
    ensures
        ok,
{
    let metrics = portfolio.get_metrics();
    metrics.trades_executed >= 0 && metrics.failed_orders >= 0 && metrics.balances_updated >= 0
}

/// INVARIANT: accumulated fees are non-negative.
pub fn invariant_fee_accumulation_non_negative(portfolio: &Portfolio) -> (ok: bool)
    ensures
        ok == spec_fee_accumulation_non_negative(portfolio@),
{
    portfolio.get_pool_stats().2 >= 0 && portfolio.get_lp_fees_accumulated() >= 0
}

/// INVARIANT: active users do not outnumber all users.
pub fn invariant_user_counts_consistent(portfolio: &Portfolio) -> (ok: bool)
    ensures
        ok == spec_user_counts_consistent(portfolio@),
{
    portfolio.get_active_users_count() <= portfolio.get_total_users()
}

/// INVARIANT: an LP position is internally consistent.
pub fn invariant_lp_position_integrity(position: &LPPosition) -> (ok: bool)
    ensures
        ok == spec_lp_position_integrity(*position),
{
    position.lp_tokens_minted >= 0 && position.xlm_deposited >= 0 && position.usdc_deposited >= 0
        && (position.lp_tokens_minted == 0 || (position.xlm_deposited > 0 && position.usdc_deposited > 0))
}

/// INVARIANT: a user holds at most one of each of the six badges.
pub fn invariant_badge_uniqueness(portfolio: &Portfolio, user: u64) -> (ok: bool)
    ensures
        ok == (badges_held(portfolio@, user).len() <= 7),
{
    let badges = portfolio.get_user_badges(user);
    badges.len() <= 7
}

/// INVARIANT: total trading volume is non-negative.
pub fn invariant_trading_volume_non_negative(portfolio: &Portfolio) -> (ok: bool)
    ensures
        ok == (portfolio@.total_trading_volume >= 0),
{
    portfolio.get_total_trading_volume() >= 0
}

/// Verify every state invariant of the portfolio; `InvariantViolation`
/// when any fails.
pub fn verify_contract_invariants(portfolio: &Portfolio) -> (r: Result<(), ContractError>)
    ensures
        r is Ok <==> spec_contract_invariants(portfolio@),
        r is Err ==> r == Err::<(), ContractError>(ContractError::InvariantViolation),
{
    let mut passed = true;
    if !invariant_non_negative_balances(portfolio) {
        passed = false;
    }
    if !invariant_pool_liquidity_non_negative(portfolio) {
        passed = false;
    }
    if !invariant_lp_token_conservation(portfolio) {
        passed = false;
    }
    if !invariant_metrics_non_negative(portfolio) {
        passed = false;
    }
    if !invariant_fee_accumulation_non_negative(portfolio) {
        passed = false;
    }
    if !invariant_user_counts_consistent(portfolio) {
        passed = false;
    }
    if passed {
        Ok(())
    } else {
        Err(ContractError::InvariantViolation)
    }
}

/// Verify an add-liquidity step: positive tokens minted, positive deposits,
/// pool reserves that did not shrink, and a positive LP total when the pool
/// was already seeded.
pub fn verify_add_liquidity_invariants(
    portfolio: &Portfolio,
    xlm_deposited: i128,
    usdc_deposited: i128,
    lp_tokens_minted: i128,
    xlm_before: i128,
    usdc_before: i128,
) -> (r: Result<(), ContractError>)
    ensures
        r is Ok <==> (
            lp_tokens_minted > 0
            && xlm_deposited > 0 && usdc_deposited > 0
            && portfolio@.xlm_in_pool >= xlm_before && portfolio@.usdc_in_pool >= usdc_before
            && ((xlm_before > 0 && usdc_before > 0) ==> portfolio@.total_lp_tokens > 0)),
        r is Err ==> r == Err::<(), ContractError>(ContractError::InvariantViolation),
{
    let mut passed = true;
    if lp_tokens_minted <= 0 {
        passed = false;
    }
    if xlm_deposited <= 0 || usdc_deposited <= 0 {
        passed = false;
    }
    let usdc = Asset::Custom(usdcsim_symbol());
    let xlm_after = portfolio.get_liquidity(&Asset::XLM);
    let usdc_after = portfolio.get_liquidity(&usdc);
    if xlm_after < xlm_before || usdc_after < usdc_before {
        passed = false;
    }
    if xlm_before > 0 && usdc_before > 0 {
        if portfolio.get_total_lp_tokens() <= 0 {
            passed = false;
        }
    }
    if passed {
        Ok(())
    } else {
        Err(ContractError::InvariantViolation)
    }
}

/// Verify a remove-liquidity step: positive tokens burned, positive
/// amounts returned, pool reserves that did not grow, and a non-negative
/// LP total.
pub fn verify_remove_liquidity_invariants(
    portfolio: &Portfolio,
    lp_tokens_burned: i128,
    xlm_returned: i128,
    usdc_returned: i128,
    xlm_before: i128,
    usdc_before: i128,
) -> (r: Result<(), ContractError>)
    ensures
        r is Ok <==> (
            lp_tokens_burned > 0
            && xlm_returned > 0 && usdc_returned > 0
            && portfolio@.xlm_in_pool <= xlm_before && portfolio@.usdc_in_pool <= usdc_before
            && portfolio@.total_lp_tokens >= 0),
        r is Err ==> r == Err::<(), ContractError>(ContractError::InvariantViolation),
{
    let mut passed = true;
    if lp_tokens_burned <= 0 {
        passed = false;
    }
    if xlm_returned <= 0 || usdc_returned <= 0 {
        passed = false;
    }
    let usdc = Asset::Custom(usdcsim_symbol());
    let xlm_after = portfolio.get_liquidity(&Asset::XLM);
    let usdc_after = portfolio.get_liquidity(&usdc);
    if xlm_after > xlm_before || usdc_after > usdc_before {
        passed = false;
    }
    if portfolio.get_total_lp_tokens() < 0 {
        passed = false;
    }
    if passed {
        Ok(())
    } else {
        Err(ContractError::InvariantViolation)
    }
}

/// Builds a report entry named by a literal.
fn report_entry(name: &str, ok: bool) -> (e: (String, bool))
    ensures
        e.0@ == name@,
        e.1 == ok,
{
    (String::from_str(name), ok)
}

/// Each state invariant by name with its status: `neg_bal`, `neg_pool`,
/// `lp_tok`, `neg_met`, `neg_fee`, `usr_cnt`, `volume`, in that order.
pub fn get_invariant_report(portfolio: &Portfolio) -> (r: Vec<(String, bool)>)
    ensures
        r@.len() == 7,
        r@[0].0@ == "neg_bal"@ && r@[0].1 == spec_non_negative_balances(portfolio@),
        r@[1].0@ == "neg_pool"@ && r@[1].1 == spec_non_negative_balances(portfolio@),
        r@[2].0@ == "lp_tok"@ && r@[2].1 == spec_lp_token_conservation(portfolio@),
        r@[3].0@ == "neg_met"@ && r@[3].1,
        r@[4].0@ == "neg_fee"@ && r@[4].1 == spec_fee_accumulation_non_negative(portfolio@),
        r@[5].0@ == "usr_cnt"@ && r@[5].1 == spec_user_counts_consistent(portfolio@),
        r@[6].0@ == "volume"@ && r@[6].1 == (portfolio@.total_trading_volume >= 0),
{
    let mut report: Vec<(String, bool)> = Vec::new();
    report.push(report_entry("neg_bal", invariant_non_negative_balances(portfolio)));
    report.push(report_entry("neg_pool", invariant_pool_liquidity_non_negative(portfolio)));
    report.push(report_entry("lp_tok", invariant_lp_token_conservation(portfolio)));
    report.push(report_entry("neg_met", invariant_metrics_non_negative(portfolio)));
    report.push(report_entry("neg_fee", invariant_fee_accumulation_non_negative(portfolio)));
    report.push(report_entry("usr_cnt", invariant_user_counts_consistent(portfolio)));
    report.push(report_entry("volume", invariant_trading_volume_non_negative(portfolio)));
    report
}

} // verus!
