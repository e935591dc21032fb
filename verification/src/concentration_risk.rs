//! Concentration risk of a user's holdings: the share of the larger of
//! their XLM and pool-USDC positions in the two together, and a risk score
//! that rises steeply as that share passes 20%, 40%, 60% and 80%.

use vstd::prelude::*;
use crate::portfolio::{Portfolio, PortfolioView, Asset, AssetId, usdc_pool_asset, trunc_div};
use crate::symbols::usdcsim_symbol;

verus! {

/// `n / d` rounded toward zero, for any non-zero `d`.
pub open spec fn quot_toward_zero(n: int, d: int) -> int {
    if d > 0 { trunc_div(n, d) } else { -trunc_div(n, -d) }
}

/// The larger of `user`'s XLM and pool-USDC balances.
pub open spec fn largest_position(p: PortfolioView, user: u64) -> i128 {
    let x = p.balance(user, AssetId::Xlm);
    let u = p.balance(user, usdc_pool_asset());
    if x >= u { x } else { u }
}

/// The sum of `user`'s XLM and pool-USDC balances.
pub open spec fn portfolio_value(p: PortfolioView, user: u64) -> int {
    p.balance(user, AssetId::Xlm) + p.balance(user, usdc_pool_asset())
}

/// The largest position in basis points of the total value, cut to 32 bits
/// (0 for an empty portfolio).
pub open spec fn concentration_bps(p: PortfolioView, user: u64) -> u32 {
    let total = portfolio_value(p, user);
    if total == 0 { 0 } else { quot_toward_zero(largest_position(p, user) * 10000, total) as u32 }
}

/// Risk score 0..=100 of a concentration in basis points.
pub open spec fn risk_score(c: u32) -> u32 {
    if c >= 8000 {
        100
    } else if c >= 6000 {
        (80 + ((c - 6000) * 20) / 2000) as u32
    } else if c >= 4000 {
        (60 + ((c - 4000) * 20) / 2000) as u32
    } else if c >= 2000 {
        (40 + ((c - 2000) * 20) / 2000) as u32
    } else {
        ((c * 40) / 2000) as u32
    }
}

/// The arithmetic of the concentration fits an `i128`.
pub open spec fn concentration_fits(p: PortfolioView, user: u64) -> bool {
    let total = portfolio_value(p, user);
    i128::MIN < total <= i128::MAX && i128::MIN <= largest_position(p, user) * 10000 <= i128::MAX
}

/// Concentration checks over a user's holdings.
pub struct ConcentrationRisk;

impl ConcentrationRisk {
    /// The largest position in basis points of the total, unscaled.
    fn concentration(portfolio: &Portfolio, user: u64) -> (c: u32)
        requires
            concentration_fits(portfolio@, user),
        ensures
            c == concentration_bps(portfolio@, user),
    {
        let total = Self::calculate_portfolio_value(portfolio, user);
        if total == 0 {
            return 0;
        }
        let xlm_value = portfolio.balance_of(&Asset::XLM, user);
        let usdc_value = portfolio.balance_of(&Asset::Custom(usdcsim_symbol()), user);
        let max_position = if xlm_value >= usdc_value { xlm_value } else { usdc_value };
        let scaled = max_position * 10000;
        let q: i128 = if total > 0 { scaled / total } else { -(scaled / (-total)) };
        #[verifier::truncate]
        (q as u32)
    }

    /// Risk score 0..=100 of `user`'s concentration.
    pub fn calculate_concentration_risk(portfolio: &Portfolio, user: u64) -> (score: u32)
        requires
            concentration_fits(portfolio@, user),
        ensures
            score == (if portfolio_value(portfolio@, user) == 0 { 0 } else { risk_score(concentration_bps(portfolio@, user)) }),
            score <= 100,
    {
        let total = Self::calculate_portfolio_value(portfolio, user);
        if total == 0 {
            return 0;
        }
        let c = Self::concentration(portfolio, user);
        if c >= 8000 {
            100
        } else if c >= 6000 {
            80 + ((c - 6000) * 20) / 2000
        } else if c >= 4000 {
            60 + ((c - 4000) * 20) / 2000
        } else if c >= 2000 {
            40 + ((c - 2000) * 20) / 2000
        } else {
            (c * 40) / 2000
        }
    }

    /// Whether `user`'s concentration reaches `warning_threshold_bps`.
    pub fn check_concentration_warning(portfolio: &Portfolio, user: u64, warning_threshold_bps: u32) -> (r: bool)
        requires
            concentration_fits(portfolio@, user),
        ensures
            r == (portfolio_value(portfolio@, user) != 0 && concentration_bps(portfolio@, user) >= warning_threshold_bps),
    {
        let total = Self::calculate_portfolio_value(portfolio, user);
        if total == 0 {
            return false;
        }
        Self::concentration(portfolio, user) >= warning_threshold_bps
    }

    /// Whether `user`'s concentration reaches `limit_threshold_bps`, at
    /// which trades should be blocked.
    pub fn check_concentration_limit(portfolio: &Portfolio, user: u64, limit_threshold_bps: u32) -> (r: bool)
        requires
            concentration_fits(portfolio@, user),
        ensures
            r == (portfolio_value(portfolio@, user) != 0 && concentration_bps(portfolio@, user) >= limit_threshold_bps),
    {
        let total = Self::calculate_portfolio_value(portfolio, user);
        if total == 0 {
            return false;
        }
        Self::concentration(portfolio, user) >= limit_threshold_bps
    }

    /// The largest position in basis points of the total (0 when empty).
    pub fn get_largest_position_percentage(portfolio: &Portfolio, user: u64) -> (c: u32)
        requires
            concentration_fits(portfolio@, user),
        ensures
            c == concentration_bps(portfolio@, user),
    {
        Self::concentration(portfolio, user)
    }

    /// Sum of `user`'s XLM and pool-USDC balances.
    fn calculate_portfolio_value(portfolio: &Portfolio, user: u64) -> (v: i128)
        requires
            i128::MIN <= portfolio_value(portfolio@, user) <= i128::MAX,
        ensures
            v == portfolio_value(portfolio@, user),
    {
        let xlm_balance = portfolio.balance_of(&Asset::XLM, user);
        let usdc_balance = portfolio.balance_of(&Asset::Custom(usdcsim_symbol()), user);
        xlm_balance + usdc_balance
    }
}

/// The risk score never exceeds 100 and never falls as concentration grows.
pub proof fn lemma_risk_score_monotone(a: u32, b: u32)
    requires
        a <= b,
    ensures
        risk_score(a) <= risk_score(b),
        risk_score(b) <= 100,
{
}

} // verus!
