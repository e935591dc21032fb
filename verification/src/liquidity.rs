//! Liquidity provision: depositing XLM and USDC into the pool for LP tokens
//! (the first deposit mints the integer square root of the product, later
//! ones a proportional share) and burning LP tokens for a proportional share
//! of the reserves. A request that cannot proceed is refused with the reason
//! and changes nothing.

use vstd::prelude::*;
use crate::portfolio::{
    Portfolio, PortfolioView, Asset, AssetId, LPPosition, usdc_pool_asset, get_or, spec_award_badges,
    sat_inc,
};
use crate::leaderboard::{board_with, stable_desc};
use crate::symbols::usdcsim_symbol;
use crate::math::{clamp_u128, clamp_i128, wrap_i128, wrap_u128, sat_mul_u128, sat_mul_i128, sat_add_i128, sat_sub_i128, to_u128_bits, to_i128_bits};

verus! {

/// Why a liquidity request was refused.
#[derive(Clone, Copy, Debug, PartialEq, Eq, Structural)]
pub enum LiquidityFailure {
    /// "XLM amount must be positive".
    NonPositiveXlm,
    /// "USDC amount must be positive".
    NonPositiveUsdc,
    /// "Insufficient XLM balance".
    InsufficientXlm,
    /// "Insufficient USDC balance".
    InsufficientUsdc,
    /// "LP tokens minted must be positive".
    NothingMinted,
    /// "LP tokens must be positive".
    NonPositiveLpTokens,
    /// "User has no LP position".
    NoPosition,
    /// "Insufficient LP tokens".
    InsufficientLpTokens,
    /// "No LP tokens in pool".
    EmptyPool,
    /// "Amounts must be positive".
    NothingReturned,
    /// "Cannot remove more than deposited".
    ExceedsDeposit,
    /// An intermediate value does not fit its integer type.
    ArithmeticOverflow,
}

/// The Babylonian iteration for the square root of `n`, from `guess` with
/// previous guess `prev` after `iters` rounds: it stops when a guess repeats
/// or after 100 rounds. `None` when a sum overflows a `u128`.
pub open spec fn newton_sqrt(n: u128, guess: u128, prev: u128, iters: nat) -> Option<u128>
    decreases 100 - iters,
{
    if guess == prev || iters >= 100 || guess == 0 {
        Some(guess)
    } else {
        let q = n / guess;
        if guess + q > u128::MAX {
            None
        } else {
            let g = ((guess + q) / 2) as u128;
            if g == 0 { Some(1) } else { newton_sqrt(n, g, guess, iters + 1) }
        }
    }
}

/// Babylonian square root of a positive `product` (at most 100 rounds from
/// `product` itself), or `None` on overflow.
pub fn babylonian_sqrt(product: u128) -> (r: Option<u128>)
    requires
        product > 0,
    ensures
        r == newton_sqrt(product, product, 0, 0),
{
    let mut guess: u128 = product;
    let mut prev_guess: u128 = 0;
    let mut iterations: u32 = 0;
    while guess != prev_guess && iterations < 100
        invariant
            guess > 0,
            iterations <= 100,
            newton_sqrt(product, guess, prev_guess, iterations as nat) == newton_sqrt(product, product, 0, 0),
        decreases 100 - iterations,
    {
        prev_guess = guess;
        let quotient = product / guess;
        if guess > u128::MAX - quotient {
            return None;
        }
        guess = (guess + quotient) / 2;
        if guess == 0 {
            return Some(1);
        }
        iterations = iterations + 1;
    }
    Some(guess)
}

/// LP tokens a deposit mints: the square root of the product for the first
/// deposit, else the smaller proportional share of the two reserves (a side
/// with an empty reserve counts as 0). `None` on overflow.
pub open spec fn spec_lp_minted(p: PortfolioView, xlm_amount: i128, usdc_amount: i128) -> Option<i128> {
    if p.total_lp_tokens == 0 {
        let product = clamp_u128(xlm_amount * usdc_amount) as u128;
        match newton_sqrt(product, product, 0, 0) {
            Some(g) => Some(wrap_i128(g) as i128),
            None => None,
        }
    } else {
        let total = wrap_u128(p.total_lp_tokens);
        let cx = p.xlm_in_pool;
        let cu = p.usdc_in_pool;
        let xs = if cx > 0 { clamp_u128(xlm_amount * total) / (cx as int) } else { 0 };
        let us = if cu > 0 { clamp_u128(usdc_amount * total) / (cu as int) } else { 0 };
        let xi = wrap_i128(xs as u128);
        let ui = wrap_i128(us as u128);
        Some((if xi <= ui { xi } else { ui }) as i128)
    }
}

/// The badges check's multiplication fits for `user`.
pub open spec fn badge_check_fits(p: PortfolioView, user: u64) -> bool {
    get_or(p.initial_balances, user, 0i128) > 0 ==> get_or(p.initial_balances, user, 0i128) * 10 <= i128::MAX
}

/// Decision of a deposit: the refusal reason or the LP tokens to mint.
pub open spec fn spec_add_liquidity_plan(p: PortfolioView, xlm_amount: i128, usdc_amount: i128, user: u64)
    -> Result<i128, LiquidityFailure>
{
    if xlm_amount <= 0 {
        Err(LiquidityFailure::NonPositiveXlm)
    } else if usdc_amount <= 0 {
        Err(LiquidityFailure::NonPositiveUsdc)
    } else if p.balance(user, AssetId::Xlm) < xlm_amount {
        Err(LiquidityFailure::InsufficientXlm)
    } else if p.balance(user, usdc_pool_asset()) < usdc_amount {
        Err(LiquidityFailure::InsufficientUsdc)
    } else {
        match spec_lp_minted(p, xlm_amount, usdc_amount) {
            None => Err(LiquidityFailure::ArithmeticOverflow),
            Some(lp) => if lp <= 0 {
                Err(LiquidityFailure::NothingMinted)
            } else if !badge_check_fits(p, user) {
                Err(LiquidityFailure::ArithmeticOverflow)
            } else {
                Ok(lp)
            },
        }
    }
}

/// A user's position after depositing: an existing one grows (saturating),
/// otherwise a new one is opened.
pub open spec fn grown_position(p: PortfolioView, user: u64, xlm_amount: i128, usdc_amount: i128, lp: i128) -> LPPosition {
    if p.lp_positions.contains_key(user) {
        let pos = p.lp_positions[user];
        LPPosition {
            xlm_deposited: clamp_i128(pos.xlm_deposited + xlm_amount) as i128,
            usdc_deposited: clamp_i128(pos.usdc_deposited + usdc_amount) as i128,
            lp_tokens_minted: clamp_i128(pos.lp_tokens_minted + lp) as i128,
            ..pos
        }
    } else {
        LPPosition { lp_address: user, xlm_deposited: xlm_amount, usdc_deposited: usdc_amount, lp_tokens_minted: lp }
    }
}

/// State after a deposit minting `lp` tokens: both amounts are debited
/// (moving the PnL), the reserves grow, the position and LP total grow, the
/// deposit is counted and badges are checked.
pub open spec fn spec_add_liquidity_apply(p: PortfolioView, xlm_amount: i128, usdc_amount: i128, user: u64, lp: i128)
    -> PortfolioView
{
    let ua = usdc_pool_asset();
    let p1 = PortfolioView {
        balances: p.balances.insert((user, AssetId::Xlm), (p.balance(user, AssetId::Xlm) - xlm_amount) as i128),
        pnl: p.pnl.insert(user, clamp_i128(p.user_pnl(user) - xlm_amount) as i128),
        metrics: crate::portfolio::bump_balances_updated(p.metrics, 1),
        ..p
    };
    let p2 = PortfolioView {
        balances: p1.balances.insert((user, ua), (p1.balance(user, ua) - usdc_amount) as i128),
        pnl: p1.pnl.insert(user, clamp_i128(p1.user_pnl(user) - usdc_amount) as i128),
        metrics: crate::portfolio::bump_balances_updated(p1.metrics, 1),
        ..p1
    };
    let p3 = PortfolioView {
        xlm_in_pool: clamp_i128(p2.xlm_in_pool + xlm_amount) as i128,
        usdc_in_pool: clamp_i128(p2.usdc_in_pool + usdc_amount) as i128,
        lp_positions: p2.lp_positions.insert(user, grown_position(p2, user, xlm_amount, usdc_amount, lp)),
        total_lp_tokens: clamp_i128(p2.total_lp_tokens + lp) as i128,
        lp_deposits_count: p2.lp_deposits_count.insert(user, sat_inc(get_or(p2.lp_deposits_count, user, 0u32))),
        ..p2
    };
    PortfolioView { badges: spec_award_badges(p3, user), ..p3 }
}

/// Deposit `xlm_amount` XLM and `usdc_amount` USDC from `user` into the
/// pool. Returns the LP tokens minted, or the refusal reason with the
/// portfolio unchanged.
pub fn add_liquidity(portfolio: &mut Portfolio, xlm_amount: i128, usdc_amount: i128, user: u64)
    -> (r: Result<i128, LiquidityFailure>)
    ensures
        match spec_add_liquidity_plan(old(portfolio)@, xlm_amount, usdc_amount, user) {
            Err(e) => r == Err::<i128, LiquidityFailure>(e) && final(portfolio)@ == old(portfolio)@,
            Ok(lp) => r == Ok::<i128, LiquidityFailure>(lp)
                && final(portfolio)@ == spec_add_liquidity_apply(old(portfolio)@, xlm_amount, usdc_amount, user, lp),
        },
{
    if xlm_amount <= 0 {
        return Err(LiquidityFailure::NonPositiveXlm);
    }
    if usdc_amount <= 0 {
        return Err(LiquidityFailure::NonPositiveUsdc);
    }
    let usdc = Asset::Custom(usdcsim_symbol());
    let current_xlm = portfolio.get_liquidity(&Asset::XLM);
    let current_usdc = portfolio.get_liquidity(&usdc);
    let total_lp_tokens = portfolio.get_total_lp_tokens();
    let user_xlm_balance = portfolio.balance_of(&Asset::XLM, user);
    let user_usdc_balance = portfolio.balance_of(&usdc, user);
    if user_xlm_balance < xlm_amount {
        return Err(LiquidityFailure::InsufficientXlm);
    }
    if user_usdc_balance < usdc_amount {
        return Err(LiquidityFailure::InsufficientUsdc);
    }
    let lp_tokens_minted: i128 = if total_lp_tokens == 0 {
        let product = sat_mul_u128(xlm_amount as u128, usdc_amount as u128);
        proof {
            assert(xlm_amount * usdc_amount > 0) by (nonlinear_arith)
                requires xlm_amount > 0, usdc_amount > 0;
        }
        match babylonian_sqrt(product) {
            Some(g) => to_i128_bits(g),
            None => {
                return Err(LiquidityFailure::ArithmeticOverflow);
            },
        }
    } else {
        let total = to_u128_bits(total_lp_tokens);
        let xlm_share: u128 = if current_xlm > 0 {
            sat_mul_u128(xlm_amount as u128, total) / (current_xlm as u128)
        } else {
            0
        };
        let usdc_share: u128 = if current_usdc > 0 {
            sat_mul_u128(usdc_amount as u128, total) / (current_usdc as u128)
        } else {
            0
        };
        let xi = to_i128_bits(xlm_share);
        let ui = to_i128_bits(usdc_share);
        if xi <= ui { xi } else { ui }
    };
    if lp_tokens_minted <= 0 {
        return Err(LiquidityFailure::NothingMinted);
    }
    let initial = portfolio.initial_balance_of(user);
    if initial > 0 && initial > i128::MAX / 10 {
        return Err(LiquidityFailure::ArithmeticOverflow);
    }
    portfolio.debit(&Asset::XLM, user, xlm_amount);
    portfolio.debit(&usdc, user, usdc_amount);
    portfolio.add_pool_liquidity(xlm_amount, usdc_amount);
    let new_position = match portfolio.get_lp_position(user) {
        Some(pos) => LPPosition {
            lp_address: pos.lp_address,
            xlm_deposited: sat_add_i128(pos.xlm_deposited, xlm_amount),
            usdc_deposited: sat_add_i128(pos.usdc_deposited, usdc_amount),
            lp_tokens_minted: sat_add_i128(pos.lp_tokens_minted, lp_tokens_minted),
        },
        None => LPPosition {
            lp_address: user,
            xlm_deposited: xlm_amount,
            usdc_deposited: usdc_amount,
            lp_tokens_minted,
        },
    };
    portfolio.set_lp_position(user, new_position);
    portfolio.add_total_lp_tokens(lp_tokens_minted);
    portfolio.record_lp_deposit(user);
    portfolio.check_and_award_badges(user);
    Ok(lp_tokens_minted)
}

/// Share of a reserve that `lp_tokens` of `total` LP tokens are worth:
/// `lp_tokens * reserve / total` on `u128` bits with a saturating product,
/// read back as `i128`.
pub open spec fn spec_share(lp_tokens: i128, reserve: i128, total: i128) -> i128 {
    wrap_i128((clamp_u128(wrap_u128(lp_tokens) * wrap_u128(reserve)) / wrap_u128(total)) as u128) as i128
}

/// Decision of a withdrawal of `lp_tokens` by `user`: the refusal reason or
/// the `(xlm, usdc)` returned.
pub open spec fn spec_remove_liquidity_plan(p: PortfolioView, lp_tokens: i128, user: u64)
    -> Result<(i128, i128), LiquidityFailure>
{
    if lp_tokens <= 0 {
        Err(LiquidityFailure::NonPositiveLpTokens)
    } else if !p.lp_positions.contains_key(user) {
        Err(LiquidityFailure::NoPosition)
    } else if p.lp_positions[user].lp_tokens_minted < lp_tokens {
        Err(LiquidityFailure::InsufficientLpTokens)
    } else if p.total_lp_tokens <= 0 {
        Err(LiquidityFailure::EmptyPool)
    } else {
        let pos = p.lp_positions[user];
        let x = spec_share(lp_tokens, p.xlm_in_pool, p.total_lp_tokens);
        let u = spec_share(lp_tokens, p.usdc_in_pool, p.total_lp_tokens);
        if !(x > 0 && u > 0) {
            Err(LiquidityFailure::NothingReturned)
        } else if x > clamp_i128(pos.xlm_deposited * 101) / 100 || u > clamp_i128(pos.usdc_deposited * 101) / 100 {
            Err(LiquidityFailure::ExceedsDeposit)
        } else if p.balance(user, AssetId::Xlm) + x > i128::MAX || p.user_pnl(user) + x > i128::MAX
            || p.balance(user, usdc_pool_asset()) + u > i128::MAX || p.user_pnl(user) + x + u > i128::MAX {
            Err(LiquidityFailure::ArithmeticOverflow)
        } else {
            Ok((x, u))
        }
    }
}

/// State after returning `(x, u)` for `lp_tokens`, apart from the
/// leaderboard: reserves shrink (saturating), both amounts are minted to the
/// user (balances and PnL grow, two balance updates), the position shrinks
/// (saturating) and the LP total shrinks (never below zero).
pub open spec fn spec_remove_liquidity_apply(p: PortfolioView, lp_tokens: i128, user: u64, x: i128, u: i128)
    -> PortfolioView
{
    let ua = usdc_pool_asset();
    let pos = p.lp_positions[user];
    let total = clamp_i128(p.total_lp_tokens - lp_tokens);
    PortfolioView {
        xlm_in_pool: clamp_i128(p.xlm_in_pool - x) as i128,
        usdc_in_pool: clamp_i128(p.usdc_in_pool - u) as i128,
        balances: p.balances.insert((user, AssetId::Xlm), (p.balance(user, AssetId::Xlm) + x) as i128).insert(
            (user, ua),
            (p.balance(user, ua) + u) as i128,
        ),
        pnl: p.pnl.insert(user, (p.user_pnl(user) + x + u) as i128),
        metrics: crate::portfolio::bump_balances_updated(crate::portfolio::bump_balances_updated(p.metrics, 1), 1),
        lp_positions: p.lp_positions.insert(user, LPPosition {
            lp_tokens_minted: clamp_i128(pos.lp_tokens_minted - lp_tokens) as i128,
            xlm_deposited: clamp_i128(pos.xlm_deposited - x) as i128,
            usdc_deposited: clamp_i128(pos.usdc_deposited - u) as i128,
            ..pos
        }),
        total_lp_tokens: if total < 0 { 0 } else { total as i128 },
        ..p
    }
}

/// The full state after returning `(x, u)` for `lp_tokens`: the changes of
/// `spec_remove_liquidity_apply`, with the leaderboard taking the user's PnL
/// after the XLM payout and again after the USDC payout.
pub open spec fn spec_removed(p: PortfolioView, lp_tokens: i128, user: u64, x: i128, u: i128) -> PortfolioView {
    PortfolioView {
        top_traders: stable_desc(board_with(
            stable_desc(board_with(p.top_traders, user, (p.user_pnl(user) + x) as i128)),
            user,
            (p.user_pnl(user) + x + u) as i128,
        )),
        ..spec_remove_liquidity_apply(p, lp_tokens, user, x, u)
    }
}

/// Burn `lp_tokens` of `user` for a proportional share of both reserves.
/// Returns `(xlm, usdc)` paid out, or the refusal reason with the portfolio
/// unchanged. The two payouts go through `mint`, so the leaderboard records
/// the user's PnL after each and is re-sorted each time.
pub fn remove_liquidity(portfolio: &mut Portfolio, lp_tokens: i128, user: u64)
    -> (r: Result<(i128, i128), LiquidityFailure>)
    ensures
        match spec_remove_liquidity_plan(old(portfolio)@, lp_tokens, user) {
            Err(e) => r == Err::<(i128, i128), LiquidityFailure>(e) && final(portfolio)@ == old(portfolio)@,
            Ok((x, u)) => {
                &&& r == Ok::<(i128, i128), LiquidityFailure>((x, u))
                &&& final(portfolio)@ == spec_removed(old(portfolio)@, lp_tokens, user, x, u)
            },
        },
{
    if lp_tokens <= 0 {
        return Err(LiquidityFailure::NonPositiveLpTokens);
    }
    let mut pos = match portfolio.get_lp_position(user) {
        Some(p) => p,
        None => {
            return Err(LiquidityFailure::NoPosition);
        },
    };
    if pos.lp_tokens_minted < lp_tokens {
        return Err(LiquidityFailure::InsufficientLpTokens);
    }
    let usdc = Asset::Custom(usdcsim_symbol());
    let current_xlm = portfolio.get_liquidity(&Asset::XLM);
    let current_usdc = portfolio.get_liquidity(&usdc);
    let total_lp_tokens = portfolio.get_total_lp_tokens();
    if total_lp_tokens <= 0 {
        return Err(LiquidityFailure::EmptyPool);
    }
    let lp_bits = to_u128_bits(lp_tokens);
    let total_bits = to_u128_bits(total_lp_tokens);
    let xlm_amount = to_i128_bits(sat_mul_u128(lp_bits, to_u128_bits(current_xlm)) / total_bits);
    let usdc_amount = to_i128_bits(sat_mul_u128(lp_bits, to_u128_bits(current_usdc)) / total_bits);
    if !(xlm_amount > 0 && usdc_amount > 0) {
        return Err(LiquidityFailure::NothingReturned);
    }
    let max_xlm = pos.xlm_deposited;
    let max_usdc = pos.usdc_deposited;
    if xlm_amount > sat_mul_i128(max_xlm, 101) / 100 || usdc_amount > sat_mul_i128(max_usdc, 101) / 100 {
        return Err(LiquidityFailure::ExceedsDeposit);
    }
    let bx = portfolio.balance_of(&Asset::XLM, user);
    let bu = portfolio.balance_of(&usdc, user);
    let pnl = portfolio.get_portfolio(user).1;
    if bx > i128::MAX - xlm_amount || pnl > i128::MAX - xlm_amount || bu > i128::MAX - usdc_amount
        || pnl + xlm_amount > i128::MAX - usdc_amount {
        return Err(LiquidityFailure::ArithmeticOverflow);
    }
    let ghost p0 = portfolio@;
    portfolio.set_liquidity(&Asset::XLM, sat_sub_i128(current_xlm, xlm_amount));
    portfolio.set_liquidity(&usdc, sat_sub_i128(current_usdc, usdc_amount));
    let ghost p_before_mints = portfolio@;
    portfolio.mint(&Asset::XLM, user, xlm_amount);
    portfolio.mint(&usdc, user, usdc_amount);
    pos.lp_tokens_minted = sat_sub_i128(pos.lp_tokens_minted, lp_tokens);
    pos.xlm_deposited = sat_sub_i128(pos.xlm_deposited, xlm_amount);
    pos.usdc_deposited = sat_sub_i128(pos.usdc_deposited, usdc_amount);
    portfolio.set_lp_position(user, pos);
    portfolio.subtract_total_lp_tokens(lp_tokens);
    proof {
        assert(p_before_mints.top_traders == p0.top_traders);
        assert(p_before_mints.user_pnl(user) == p0.user_pnl(user));
        let target = spec_remove_liquidity_apply(p0, lp_tokens, user, xlm_amount, usdc_amount);
        assert(portfolio@.balances =~= target.balances);
        assert(portfolio@.pnl =~= target.pnl);
    }
    Ok((xlm_amount, usdc_amount))
}


/// A deposit keeps the portfolio's state invariants: the reserves and the
/// LP token total only grow, and fees and user counts are untouched.
pub proof fn lemma_add_liquidity_keeps_invariants(p: PortfolioView, xlm_amount: i128, usdc_amount: i128, user: u64)
    requires
        crate::invariants::spec_contract_invariants(p),
        spec_add_liquidity_plan(p, xlm_amount, usdc_amount, user) is Ok,
    ensures
        crate::invariants::spec_contract_invariants(
            spec_add_liquidity_apply(p, xlm_amount, usdc_amount, user, spec_add_liquidity_plan(p, xlm_amount, usdc_amount, user).unwrap()),
        ),
{
}

/// A withdrawal of no more LP tokens than are outstanding keeps the
/// portfolio's state invariants: each reserve pays at most what it holds,
/// the LP token total stays non-negative, and fees and user counts are
/// untouched.
pub proof fn lemma_remove_liquidity_keeps_invariants(p: PortfolioView, lp_tokens: i128, user: u64)
    requires
        crate::invariants::spec_contract_invariants(p),
        lp_tokens <= p.total_lp_tokens,
        spec_remove_liquidity_plan(p, lp_tokens, user) is Ok,
    ensures
        ({
            let (x, u) = spec_remove_liquidity_plan(p, lp_tokens, user).unwrap();
            crate::invariants::spec_contract_invariants(spec_remove_liquidity_apply(p, lp_tokens, user, x, u))
        }),
{
    let (x, u) = spec_remove_liquidity_plan(p, lp_tokens, user).unwrap();
    lemma_share_within_reserve(lp_tokens, p.xlm_in_pool, p.total_lp_tokens);
    lemma_share_within_reserve(lp_tokens, p.usdc_in_pool, p.total_lp_tokens);
}

/// The share `lp_tokens` of `total` are worth never exceeds the reserve.
proof fn lemma_share_within_reserve(lp_tokens: i128, reserve: i128, total: i128)
    requires
        0 < lp_tokens <= total,
        reserve >= 0,
    ensures
        0 <= spec_share(lp_tokens, reserve, total) <= reserve,
{
    let prod = lp_tokens * reserve;
    assert(0 <= prod <= total * reserve) by (nonlinear_arith)
        requires
            0 < lp_tokens <= total, reserve >= 0, prod == lp_tokens * reserve;
    let c = clamp_u128(prod);
    assert(c <= prod);
    let q = c / (total as int);
    assert(0 <= q <= reserve) by (nonlinear_arith)
        requires
            total > 0, 0 <= c <= total * reserve, q == c / (total as int), reserve >= 0;
}

/// LP tokens are conserved on a deposit: the tokens it mints are added both
/// to the provider's position and to the LP total, where neither count
/// saturates.
pub proof fn lemma_deposit_conserves_lp_tokens(p: PortfolioView, xlm_amount: i128, usdc_amount: i128, user: u64)
    requires
        spec_add_liquidity_plan(p, xlm_amount, usdc_amount, user) is Ok,
        p.total_lp_tokens + spec_add_liquidity_plan(p, xlm_amount, usdc_amount, user).unwrap() <= i128::MAX,
        p.lp_positions.contains_key(user) ==> p.lp_positions[user].lp_tokens_minted
            + spec_add_liquidity_plan(p, xlm_amount, usdc_amount, user).unwrap() <= i128::MAX,
    ensures
        ({
            let lp = spec_add_liquidity_plan(p, xlm_amount, usdc_amount, user).unwrap();
            let held = if p.lp_positions.contains_key(user) { p.lp_positions[user].lp_tokens_minted as int } else { 0 };
            let q = spec_add_liquidity_apply(p, xlm_amount, usdc_amount, user, lp);
            &&& q.total_lp_tokens == p.total_lp_tokens + lp
            &&& q.lp_positions.contains_key(user)
            &&& q.lp_positions[user].lp_tokens_minted == held + lp
        }),
{
}

/// LP tokens are conserved on a withdrawal: the tokens it burns are taken
/// both from the provider's position and from the LP total.
pub proof fn lemma_withdrawal_conserves_lp_tokens(p: PortfolioView, lp_tokens: i128, user: u64)
    requires
        spec_remove_liquidity_plan(p, lp_tokens, user) is Ok,
        lp_tokens <= p.total_lp_tokens,
    ensures
        ({
            let (x, u) = spec_remove_liquidity_plan(p, lp_tokens, user).unwrap();
            let q = spec_removed(p, lp_tokens, user, x, u);
            &&& q.total_lp_tokens == p.total_lp_tokens - lp_tokens
            &&& q.lp_positions.contains_key(user)
            &&& q.lp_positions[user].lp_tokens_minted == p.lp_positions[user].lp_tokens_minted - lp_tokens
        }),
{
}

/// A later deposit earns no larger share of the pool than either side it
/// adds: the LP tokens minted are the largest count `lp` with
/// `lp * xlm_reserve <= xlm_amount * total` and
/// `lp * usdc_reserve <= usdc_amount * total`, that is the smaller of the
/// two proportional shares, rounded down. Stated where both products fit a
/// `u128` and both shares an `i128`.
pub proof fn lemma_later_deposit_mints_smaller_share(p: PortfolioView, xlm_amount: i128, usdc_amount: i128)
    requires
        p.total_lp_tokens > 0,
        p.xlm_in_pool > 0,
        p.usdc_in_pool > 0,
        xlm_amount > 0,
        usdc_amount > 0,
        xlm_amount * p.total_lp_tokens <= u128::MAX,
        usdc_amount * p.total_lp_tokens <= u128::MAX,
        (xlm_amount * p.total_lp_tokens) / (p.xlm_in_pool as int) <= i128::MAX,
        (usdc_amount * p.total_lp_tokens) / (p.usdc_in_pool as int) <= i128::MAX,
    ensures
        spec_lp_minted(p, xlm_amount, usdc_amount) is Some,
        ({
            let lp = spec_lp_minted(p, xlm_amount, usdc_amount).unwrap() as int;
            let t = p.total_lp_tokens as int;
            &&& 0 <= lp
            &&& lp * p.xlm_in_pool <= xlm_amount * t
            &&& lp * p.usdc_in_pool <= usdc_amount * t
            &&& (lp + 1) * p.xlm_in_pool > xlm_amount * t || (lp + 1) * p.usdc_in_pool > usdc_amount * t
        }),
{
    let t = p.total_lp_tokens as int;
    let rx = p.xlm_in_pool as int;
    let ru = p.usdc_in_pool as int;
    let nx = xlm_amount * t;
    let nu = usdc_amount * t;
    assert(nx > 0 && nu > 0) by (nonlinear_arith)
        requires xlm_amount > 0, usdc_amount > 0, t > 0, nx == xlm_amount * t, nu == usdc_amount * t;
    let xs = nx / rx;
    let us = nu / ru;
    assert(xs >= 0 && xs * rx <= nx && nx < (xs + 1) * rx) by (nonlinear_arith)
        requires rx > 0, nx >= 0, xs == nx / rx;
    assert(us >= 0 && us * ru <= nu && nu < (us + 1) * ru) by (nonlinear_arith)
        requires ru > 0, nu >= 0, us == nu / ru;
    if xs <= us {
        assert(xs * ru <= us * ru) by (nonlinear_arith)
            requires xs <= us, ru > 0;
    } else {
        assert(us * rx <= xs * rx) by (nonlinear_arith)
            requires us <= xs, rx > 0;
    }
}

/// A withdrawal pays each reserve's proportional share, rounded down: for
/// `lp_tokens` of `total` LP tokens, the XLM returned `x` satisfies
/// `x * total <= lp_tokens * xlm_reserve < (x + 1) * total`, and likewise
/// for USDC. Stated where the products fit a `u128`.
pub proof fn lemma_withdrawal_pays_proportional_share(p: PortfolioView, lp_tokens: i128, user: u64)
    requires
        spec_remove_liquidity_plan(p, lp_tokens, user) is Ok,
        p.xlm_in_pool >= 0,
        p.usdc_in_pool >= 0,
        lp_tokens * p.xlm_in_pool <= u128::MAX,
        lp_tokens * p.usdc_in_pool <= u128::MAX,
    ensures
        ({
            let (x, u) = spec_remove_liquidity_plan(p, lp_tokens, user).unwrap();
            let t = p.total_lp_tokens as int;
            &&& x * t <= lp_tokens * p.xlm_in_pool < (x + 1) * t
            &&& u * t <= lp_tokens * p.usdc_in_pool < (u + 1) * t
        }),
{
    let t = p.total_lp_tokens as int;
    let a = lp_tokens * p.xlm_in_pool;
    let b = lp_tokens * p.usdc_in_pool;
    assert(a >= 0 && b >= 0) by (nonlinear_arith)
        requires lp_tokens > 0, p.xlm_in_pool >= 0, p.usdc_in_pool >= 0,
            a == lp_tokens * p.xlm_in_pool, b == lp_tokens * p.usdc_in_pool;
    let qa = a / t;
    let qb = b / t;
    assert(qa * t <= a < (qa + 1) * t && 0 <= qa <= a) by (nonlinear_arith)
        requires t > 0, a >= 0, qa == a / t;
    assert(qb * t <= b < (qb + 1) * t && 0 <= qb <= b) by (nonlinear_arith)
        requires t > 0, b >= 0, qb == b / t;
}

} // verus!
