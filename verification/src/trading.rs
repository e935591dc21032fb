//! Swaps against the XLM/USDC pool: oracle pricing with a staleness check,
//! the constant-product formula with a 0.3% LP fee, slippage protection, and
//! the balance and reserve updates. A swap that cannot proceed is refused
//! with the reason and changes nothing.

use vstd::prelude::*;
use crate::portfolio::{Portfolio, PortfolioView, Asset, AssetId};
use crate::oracle::{PriceOracle, OracleView};
use crate::symbols::{xlm_chars, usdcsim_chars, usdc_dash_sim_chars, is_xlm, is_usdcsim, is_usdc_dash_sim, same_symbol, usdcsim_symbol};
use crate::math::{clamp_u128, clamp_i128, wrap_i128, sat_mul_u128, sat_add_i128, sat_sub_i128, to_i128_bits};

verus! {

/// Fixed-point scale of oracle prices (1e18 is a 1:1 rate).
pub const PRECISION: u128 = 1_000_000_000_000_000_000;
/// A price older than this many seconds is stale.
pub const STALE_THRESHOLD_SECONDS: u64 = 600;
/// LP fee charged on swaps, in basis points.
pub const LP_FEE_BPS: u128 = 30;

/// Why a swap was refused.
#[derive(Clone, Copy, Debug, PartialEq, Eq, Structural)]
pub enum SwapFailure {
    /// The amount is zero or negative.
    NonPositiveAmount,
    /// Both sides name the same token.
    SameToken,
    /// The source token is not traded.
    InvalidFromToken,
    /// The destination token is not traded.
    InvalidToToken,
    /// The oracle price is older than the staleness threshold.
    StalePrice,
    /// The inverse price would divide by a zero price.
    InvalidPrice,
    /// The swap would give nothing.
    ZeroOutput,
    /// The output falls short of the no-fee output by more than allowed.
    SlippageExceeded,
    /// The user's balance does not cover the amount.
    InsufficientFunds,
    /// An intermediate value does not fit its integer type.
    ArithmeticOverflow,
}

/// Result of looking up an oracle price.
pub enum PriceLookup {
    Price(u128),
    Stale,
    Invalid,
    NotSet,
    ClockBehind,
}

/// A traded token: `XLM`, `USDCSIM` or `USDC-SIM`.
pub open spec fn traded_token(s: Seq<char>) -> bool {
    s == xlm_chars() || s == usdcsim_chars() || s == usdc_dash_sim_chars()
}

/// The asset a traded symbol stands for.
pub open spec fn token_asset(s: Seq<char>) -> AssetId {
    if s == xlm_chars() { AssetId::Xlm } else { AssetId::Custom(s) }
}

/// The asset of a traded symbol, or `None` for any other symbol.
pub fn symbol_to_asset(sym: &String) -> (r: Option<Asset>)
    ensures
        traded_token(sym@) ==> r is Some && r.unwrap()@ == token_asset(sym@),
        !traded_token(sym@) ==> r is None,
{
    if is_xlm(sym) {
        Some(Asset::XLM)
    } else if is_usdcsim(sym) || is_usdc_dash_sim(sym) {
        Some(Asset::Custom(sym.clone()))
    } else {
        None
    }
}

/// Oracle price for `from -> to` at `now`: the direct price when recorded,
/// else the inverse of the reverse price; each must be at most
/// `STALE_THRESHOLD_SECONDS` old and not newer than `now`.
pub open spec fn spec_price_lookup(o: OracleView, from: Seq<char>, to: Seq<char>, now: u64) -> PriceLookup {
    if o.prices.contains_key((from, to)) {
        let d = o.prices[(from, to)];
        if d.timestamp > now {
            PriceLookup::ClockBehind
        } else if now - d.timestamp > STALE_THRESHOLD_SECONDS {
            PriceLookup::Stale
        } else {
            PriceLookup::Price(d.price)
        }
    } else if o.prices.contains_key((to, from)) {
        let d = o.prices[(to, from)];
        if d.timestamp > now {
            PriceLookup::ClockBehind
        } else if now - d.timestamp > STALE_THRESHOLD_SECONDS {
            PriceLookup::Stale
        } else if d.price == 0 {
            PriceLookup::Invalid
        } else {
            PriceLookup::Price(((PRECISION * PRECISION) / (d.price as int)) as u128)
        }
    } else {
        PriceLookup::NotSet
    }
}

/// Look up the oracle price for `from -> to` at `now`.
pub fn get_price_with_staleness_check(oracle: &PriceOracle, from: &String, to: &String, now: u64) -> (r: PriceLookup)
    ensures
        r == spec_price_lookup(oracle@, from@, to@, now),
{
    let direct = oracle.get_stored_price(&(from.clone(), to.clone()));
    match direct {
        Some(data) => {
            if data.timestamp > now {
                return PriceLookup::ClockBehind;
            }
            if now - data.timestamp > STALE_THRESHOLD_SECONDS {
                return PriceLookup::Stale;
            }
            return PriceLookup::Price(data.price);
        },
        None => {},
    }
    let reverse = oracle.get_stored_price(&(to.clone(), from.clone()));
    match reverse {
        Some(data) => {
            if data.timestamp > now {
                return PriceLookup::ClockBehind;
            }
            if now - data.timestamp > STALE_THRESHOLD_SECONDS {
                return PriceLookup::Stale;
            }
            if data.price == 0 {
                return PriceLookup::Invalid;
            }
            PriceLookup::Price((PRECISION * PRECISION) / data.price)
        },
        None => PriceLookup::NotSet,
    }
}

/// What a swap will do once every check has passed.
pub struct SwapPlan {
    pub out: i128,
    pub fee: i128,
    pub pool_active: bool,
    /// What the input reserve is credited with when the pool priced it.
    pub pool_in: i128,
}

/// The price a swap uses: the oracle price, or 1:1 when none is set.
pub open spec fn spec_resolved_price(l: PriceLookup) -> Result<u128, SwapFailure> {
    match l {
        PriceLookup::Price(p) => Ok(p),
        PriceLookup::Stale => Err(SwapFailure::StalePrice),
        PriceLookup::Invalid => Err(SwapFailure::InvalidPrice),
        PriceLookup::NotSet => Ok(PRECISION),
        PriceLookup::ClockBehind => Err(SwapFailure::ArithmeticOverflow),
    }
}

/// Reserves `(in, out)` of a swap from `from`, read as `u128` bits.
pub open spec fn spec_reserves(p: PortfolioView, from: Seq<char>) -> (int, int) {
    let x = crate::math::wrap_u128(p.xlm_in_pool);
    let u = crate::math::wrap_u128(p.usdc_in_pool);
    if from == xlm_chars() { (x, u) } else { (u, x) }
}

/// What the input reserve takes in for a pool swap paying out `out` on an
/// input of `af` net of the 0.3% fee: the largest amount that keeps the
/// product of the reserves from growing, `rin * out / (rout - out)` rounded
/// down (on a product saturating at `u128::MAX`), and never more than `af`.
/// The rounding remainder stays out of the pool.
pub open spec fn pool_credit(rin: int, rout: int, out: int, af: int) -> i128 {
    let c = clamp_u128(rin * out) / (rout - out);
    (if c > af { af } else { c }) as i128
}

/// The full decision of a swap of `amount` from `from` to `to` by `user`,
/// with `max_slip` basis points of allowed slippage: the refusal reason, or
/// the output, the LP fee and whether the pool priced it.
pub open spec fn spec_swap_plan(
    p: PortfolioView,
    o: OracleView,
    from: Seq<char>,
    to: Seq<char>,
    amount: i128,
    user: u64,
    now: u64,
    max_slip: u32,
) -> Result<SwapPlan, SwapFailure> {
    if amount <= 0 {
        Err(SwapFailure::NonPositiveAmount)
    } else if from == to {
        Err(SwapFailure::SameToken)
    } else if !traded_token(from) {
        Err(SwapFailure::InvalidFromToken)
    } else if !traded_token(to) {
        Err(SwapFailure::InvalidToToken)
    } else {
        match spec_resolved_price(spec_price_lookup(o, from, to, now)) {
            Err(e) => Err(e),
            Ok(price) => {
                let (rin, rout) = spec_reserves(p, from);
                let pool = rin > 0 && rout > 0;
                if amount * 9970 > u128::MAX {
                    Err(SwapFailure::ArithmeticOverflow)
                } else if !pool && amount * price > u128::MAX {
                    Err(SwapFailure::ArithmeticOverflow)
                } else {
                    let after_fee = (amount * 9970) / 10000;
                    let actual = if pool {
                        clamp_u128(rout * after_fee) / clamp_u128(rin + after_fee)
                    } else {
                        (amount * price) / (PRECISION as int)
                    };
                    let out = wrap_i128(actual as u128);
                    let fee = (amount * 30) / 10000;
                    let theoretical = if pool { clamp_u128(rout * amount) / clamp_u128(rin + amount) } else { amount as int };
                    if out <= 0 {
                        Err(SwapFailure::ZeroOutput)
                    } else if theoretical > 0 && actual < theoretical && (theoretical - actual) * 10000 > u128::MAX {
                        Err(SwapFailure::ArithmeticOverflow)
                    } else if theoretical > 0 && actual < theoretical && ((theoretical - actual) * 10000) / theoretical > max_slip {
                        Err(SwapFailure::SlippageExceeded)
                    } else if p.balance(user, token_asset(from)) < amount {
                        Err(SwapFailure::InsufficientFunds)
                    } else if p.balance(user, token_asset(to)) + out > i128::MAX {
                        Err(SwapFailure::ArithmeticOverflow)
                    } else {
                        Ok(SwapPlan { out: out as i128, fee: fee as i128, pool_active: pool, pool_in: pool_credit(rin, rout, actual, after_fee) })
                    }
                }
            },
        }
    }
}

/// State after a planned swap: the input is debited and the output credited
/// (each also moving the user's PnL and counting a balance update), the
/// pool's input reserve takes the credit of `pool_credit` and its output
/// reserve pays the output (saturating), and a positive fee is accrued for
/// LPs.
pub open spec fn spec_apply_swap(
    p: PortfolioView,
    from: Seq<char>,
    to: Seq<char>,
    amount: i128,
    user: u64,
    plan: SwapPlan,
) -> PortfolioView {
    let fa = token_asset(from);
    let ta = token_asset(to);
    let p1 = PortfolioView {
        balances: p.balances.insert((user, fa), (p.balance(user, fa) - amount) as i128),
        pnl: p.pnl.insert(user, clamp_i128(p.user_pnl(user) - amount) as i128),
        metrics: crate::portfolio::bump_balances_updated(p.metrics, 1),
        ..p
    };
    let p2 = PortfolioView {
        balances: p1.balances.insert((user, ta), (p1.balance(user, ta) + plan.out) as i128),
        pnl: p1.pnl.insert(user, clamp_i128(p1.user_pnl(user) + plan.out) as i128),
        metrics: crate::portfolio::bump_balances_updated(p1.metrics, 1),
        ..p1
    };
    let net_in = plan.pool_in;
    let p3 = if plan.pool_active {
        if from == xlm_chars() {
            PortfolioView {
                xlm_in_pool: clamp_i128(p2.xlm_in_pool + net_in) as i128,
                usdc_in_pool: clamp_i128(p2.usdc_in_pool - plan.out) as i128,
                ..p2
            }
        } else {
            PortfolioView {
                usdc_in_pool: clamp_i128(p2.usdc_in_pool + net_in) as i128,
                xlm_in_pool: clamp_i128(p2.xlm_in_pool - plan.out) as i128,
                ..p2
            }
        }
    } else {
        p2
    };
    if plan.fee > 0 {
        PortfolioView { lp_fees_accumulated: clamp_i128(p3.lp_fees_accumulated + plan.fee) as i128, ..p3 }
    } else {
        p3
    }
}

/// Swap `amount` of `from` for `to` on behalf of `user` at time `now`,
/// allowing `max_slip` basis points of slippage. Returns the output amount,
/// or the reason for refusal with the portfolio unchanged.
pub fn perform_swap(
    portfolio: &mut Portfolio,
    oracle: &PriceOracle,
    from: &String,
    to: &String,
    amount: i128,
    user: u64,
    now: u64,
    max_slip: u32,
) -> (r: Result<i128, SwapFailure>)
    ensures
        match spec_swap_plan(old(portfolio)@, oracle@, from@, to@, amount, user, now, max_slip) {
            Err(e) => r == Err::<i128, SwapFailure>(e) && final(portfolio)@ == old(portfolio)@,
            Ok(plan) => r == Ok::<i128, SwapFailure>(plan.out)
                && final(portfolio)@ == spec_apply_swap(old(portfolio)@, from@, to@, amount, user, plan),
        },
{
    if amount <= 0 {
        return Err(SwapFailure::NonPositiveAmount);
    }
    if same_symbol(from, to) {
        return Err(SwapFailure::SameToken);
    }
    let from_asset = match symbol_to_asset(from) {
        Some(a) => a,
        None => {
            return Err(SwapFailure::InvalidFromToken);
        },
    };
    let to_asset = match symbol_to_asset(to) {
        Some(a) => a,
        None => {
            return Err(SwapFailure::InvalidToToken);
        },
    };
    let price: u128 = match get_price_with_staleness_check(oracle, from, to, now) {
        PriceLookup::Price(p) => p,
        PriceLookup::Stale => {
            return Err(SwapFailure::StalePrice);
        },
        PriceLookup::Invalid => {
            return Err(SwapFailure::InvalidPrice);
        },
        PriceLookup::NotSet => PRECISION,
        PriceLookup::ClockBehind => {
            return Err(SwapFailure::ArithmeticOverflow);
        },
    };
    let xlm_liquidity = portfolio.get_liquidity(&Asset::XLM);
    let usdc_liquidity = portfolio.get_liquidity(&Asset::Custom(usdcsim_symbol()));
    let amount_u128 = amount as u128;
    let from_is_xlm = is_xlm(from);
    let (reserve_in, reserve_out) = if from_is_xlm {
        (crate::math::to_u128_bits(xlm_liquidity), crate::math::to_u128_bits(usdc_liquidity))
    } else {
        (crate::math::to_u128_bits(usdc_liquidity), crate::math::to_u128_bits(xlm_liquidity))
    };
    let pool = reserve_in > 0 && reserve_out > 0;
    if amount_u128 > u128::MAX / 9970 {
        proof {
            assert(amount * 9970 > u128::MAX) by (nonlinear_arith)
                requires amount_u128 > u128::MAX / 9970, amount == amount_u128;
        }
        return Err(SwapFailure::ArithmeticOverflow);
    }
    if !pool && price != 0 && amount_u128 > u128::MAX / price {
        proof {
            assert(amount * price > u128::MAX) by (nonlinear_arith)
                requires amount_u128 > u128::MAX / price, amount == amount_u128, price > 0;
        }
        return Err(SwapFailure::ArithmeticOverflow);
    }
    proof {
        assert(amount * 9970 <= u128::MAX) by (nonlinear_arith)
            requires amount_u128 <= u128::MAX / 9970, amount == amount_u128;
        if !pool {
            assert(amount * price <= u128::MAX) by (nonlinear_arith)
                requires price == 0 || amount_u128 <= u128::MAX / price, amount == amount_u128, amount > 0;
        }
    }
    let amount_in_after_fee = (amount_u128 * (10000 - LP_FEE_BPS)) / 10000;
    let actual_out: u128 = if pool {
        let numerator = sat_mul_u128(reserve_out, amount_in_after_fee);
        let denominator = reserve_in.saturating_add(amount_in_after_fee);
        numerator / denominator
    } else {
        (amount_u128 * price) / PRECISION
    };
    let out_amount = to_i128_bits(actual_out);
    if out_amount <= 0 {
        return Err(SwapFailure::ZeroOutput);
    }
    let fee_amount = (amount_u128 * LP_FEE_BPS) / 10000;
    let fee_amount_i128 = fee_amount as i128;
    let theoretical_out: u128 = if pool {
        let numerator = sat_mul_u128(reserve_out, amount_u128);
        let denominator = reserve_in.saturating_add(amount_u128);
        numerator / denominator
    } else {
        amount_u128
    };
    if theoretical_out > 0 && actual_out < theoretical_out {
        let diff = theoretical_out - actual_out;
        if diff > u128::MAX / 10000 {
            return Err(SwapFailure::ArithmeticOverflow);
        }
        let slippage_bps = (diff * 10000) / theoretical_out;
        if slippage_bps > max_slip as u128 {
            return Err(SwapFailure::SlippageExceeded);
        }
    }
    let from_balance = portfolio.balance_of(&from_asset, user);
    if from_balance < amount {
        return Err(SwapFailure::InsufficientFunds);
    }
    let to_balance = portfolio.balance_of(&to_asset, user);
    if to_balance > i128::MAX - out_amount {
        return Err(SwapFailure::ArithmeticOverflow);
    }
    proof {
        assert(from_asset@ != to_asset@);
    }
    portfolio.debit(&from_asset, user, amount);
    portfolio.credit(&to_asset, user, out_amount);
    if pool {
        proof {
            let af = amount_in_after_fee as int;
            assert(0 <= af <= amount) by (nonlinear_arith)
                requires amount > 0, af == (amount * 9970) / 10000;
            let den = clamp_u128(reserve_in + af);
            assert(af < den);
            assert(0 <= reserve_out * af) by (nonlinear_arith)
                requires reserve_out >= 0, af >= 0;
            let num = clamp_u128(reserve_out * af);
            assert(actual_out * den <= num) by (nonlinear_arith)
                requires den > 0, num >= 0, actual_out == num / den;
            lemma_pool_output_below_reserve(reserve_out as int, af, den, actual_out as int);
            lemma_pool_credit_within(reserve_in as int, reserve_out as int, af, actual_out as int);
        }
        let bound = sat_mul_u128(reserve_in, actual_out) / (reserve_out - actual_out);
        let credit_u = if bound > amount_in_after_fee { amount_in_after_fee } else { bound };
        let credit = credit_u as i128;
        if from_is_xlm {
            portfolio.set_liquidity(&Asset::XLM, sat_add_i128(xlm_liquidity, credit));
            portfolio.set_liquidity(&Asset::Custom(usdcsim_symbol()), sat_sub_i128(usdc_liquidity, out_amount));
        } else {
            portfolio.set_liquidity(&Asset::Custom(usdcsim_symbol()), sat_add_i128(usdc_liquidity, credit));
            portfolio.set_liquidity(&Asset::XLM, sat_sub_i128(xlm_liquidity, out_amount));
        }
    }
    if fee_amount_i128 > 0 {
        portfolio.add_lp_fees(fee_amount_i128);
    }
    Ok(out_amount)
}


/// The input credit of a pool swap lies between zero and the input net of
/// the fee, and keeps the product of the reserves from growing.
proof fn lemma_pool_credit_within(rin: int, rout: int, af: int, out: int)
    requires
        rin >= 0,
        0 <= out < rout,
        0 <= af <= i128::MAX,
    ensures
        0 <= pool_credit(rin, rout, out, af) <= af,
        (rin + pool_credit(rin, rout, out, af)) * (rout - out) <= rin * rout,
{
    assert(0 <= rin * out) by (nonlinear_arith)
        requires rin >= 0, out >= 0;
    let c = clamp_u128(rin * out);
    assert(c <= rin * out);
    let d = rout - out;
    let q = c / d;
    assert(0 <= q && q * d <= c) by (nonlinear_arith)
        requires d > 0, c >= 0, q == c / d;
    let k: int = if q > af { af } else { q };
    assert(0 <= k <= af && k <= q);
    assert(k * d <= q * d) by (nonlinear_arith)
        requires k <= q, d > 0;
    assert((rin + k) * d == rin * rout - rin * out + k * d) by (nonlinear_arith)
        requires d == rout - out;
    assert(pool_credit(rin, rout, out, af) == k);
}

/// A pool swap pays out less than the output reserve: the output is the
/// output reserve times `af` divided by a denominator larger than `af`.
proof fn lemma_pool_output_below_reserve(rout: int, af: int, den: int, out: int)
    requires
        rout > 0,
        0 <= af < den,
        0 <= out,
        out * den <= rout * af,
    ensures
        out < rout,
{
    assert(out < rout) by (nonlinear_arith)
        requires rout > 0, 0 <= af < den, 0 <= out, out * den <= rout * af;
}

/// The pool's constant product never grows on a swap: when both reserves
/// are positive, a swap the pool priced leaves both reserves positive and
/// their product at most what it was. The output is priced on the input net
/// of the 0.3% fee, and the input reserve is credited only with what keeps
/// the product from growing.
pub proof fn lemma_swap_keeps_constant_product(
    p: PortfolioView,
    o: OracleView,
    from: Seq<char>,
    to: Seq<char>,
    amount: i128,
    user: u64,
    now: u64,
    max_slip: u32,
)
    requires
        p.xlm_in_pool > 0,
        p.usdc_in_pool > 0,
        spec_swap_plan(p, o, from, to, amount, user, now, max_slip) is Ok,
    ensures
        ({
            let q = spec_apply_swap(p, from, to, amount, user, spec_swap_plan(p, o, from, to, amount, user, now, max_slip).unwrap());
            &&& q.xlm_in_pool > 0
            &&& q.usdc_in_pool > 0
            &&& q.xlm_in_pool * q.usdc_in_pool <= p.xlm_in_pool * p.usdc_in_pool
        }),
{
    let plan = spec_swap_plan(p, o, from, to, amount, user, now, max_slip).unwrap();
    let (rin, rout) = spec_reserves(p, from);
    let af = (amount * 9970) / 10000;
    assert(plan.pool_active);
    assert(0 <= af) by (nonlinear_arith)
        requires
            amount > 0, af == (amount * 9970) / 10000;
    let num = clamp_u128(rout * af);
    let den = clamp_u128(rin + af);
    assert(den == rin + af);
    assert(af <= amount) by (nonlinear_arith)
        requires
            amount > 0, af == (amount * 9970) / 10000;
    assert(0 <= rout * af) by (nonlinear_arith)
        requires
            rout > 0, af >= 0;
    assert(num <= rout * af);
    let actual = num / den;
    assert(0 <= actual && actual * den <= num) by (nonlinear_arith)
        requires
            den > 0, num >= 0, actual == num / den;
    lemma_pool_output_below_reserve(rout, af, den, actual);
    lemma_pool_credit_within(rin, rout, af, actual);
    let c = pool_credit(rin, rout, actual, af);
    assert(plan.out == actual);
    assert(plan.pool_in == c);
    let q = spec_apply_swap(p, from, to, amount, user, plan);
    let new_in = clamp_i128(rin + c);
    assert(rin <= new_in <= rin + c);
    assert(new_in * (rout - actual) <= rin * rout) by (nonlinear_arith)
        requires
            rin <= new_in, new_in <= rin + c, rout - actual > 0,
            (rin + c) * (rout - actual) <= rin * rout;
    if from == xlm_chars() {
        assert(q.xlm_in_pool == new_in);
        assert(q.usdc_in_pool == rout - actual);
    } else {
        assert(q.usdc_in_pool == new_in);
        assert(q.xlm_in_pool == rout - actual);
        assert(q.xlm_in_pool * q.usdc_in_pool == new_in * (rout - actual)) by (nonlinear_arith)
            requires
                q.xlm_in_pool == rout - actual, q.usdc_in_pool == new_in;
        assert(p.xlm_in_pool * p.usdc_in_pool == rin * rout) by (nonlinear_arith)
            requires
                p.xlm_in_pool == rout, p.usdc_in_pool == rin;
    }
}


/// A swap keeps the portfolio's state invariants: reserves stay
/// non-negative, the LP token total and the user counts are untouched, and
/// the accrued fees only grow.
pub proof fn lemma_swap_keeps_invariants(
    p: PortfolioView,
    o: OracleView,
    from: Seq<char>,
    to: Seq<char>,
    amount: i128,
    user: u64,
    now: u64,
    max_slip: u32,
)
    requires
        crate::invariants::spec_contract_invariants(p),
        spec_swap_plan(p, o, from, to, amount, user, now, max_slip) is Ok,
    ensures
        crate::invariants::spec_contract_invariants(
            spec_apply_swap(p, from, to, amount, user, spec_swap_plan(p, o, from, to, amount, user, now, max_slip).unwrap()),
        ),
{
    let plan = spec_swap_plan(p, o, from, to, amount, user, now, max_slip).unwrap();
    let (rin, rout) = spec_reserves(p, from);
    let fee = (amount * 30) / 10000;
    assert(0 <= fee <= amount) by (nonlinear_arith)
        requires
            amount > 0, fee == (amount * 30) / 10000;
    assert(plan.fee == fee);
    if plan.pool_active {
        let af = (amount * 9970) / 10000;
        assert(0 <= af) by (nonlinear_arith)
            requires
                amount > 0, af == (amount * 9970) / 10000;
        let num = clamp_u128(rout * af);
        let den = clamp_u128(rin + af);
        assert(af <= amount) by (nonlinear_arith)
            requires
                amount > 0, af == (amount * 9970) / 10000;
        assert(af < den);
        assert(0 <= rout * af) by (nonlinear_arith)
            requires
                rout > 0, af >= 0;
        let actual = num / den;
        assert(0 <= actual && actual * den <= num) by (nonlinear_arith)
            requires
                den > 0, num >= 0, actual == num / den;
        lemma_pool_output_below_reserve(rout, af, den, actual);
        lemma_pool_credit_within(rin, rout, af, actual);
        assert(plan.out == actual);
        assert(plan.pool_in == pool_credit(rin, rout, actual, af));
    }
}

/// The LP fee of a swap stays within bounds: it is non-negative, zero on a
/// zero amount, and at most 1% of the amount.
pub proof fn lemma_swap_fee_within_bounds(
    p: PortfolioView,
    o: OracleView,
    from: Seq<char>,
    to: Seq<char>,
    amount: i128,
    user: u64,
    now: u64,
    max_slip: u32,
)
    requires
        spec_swap_plan(p, o, from, to, amount, user, now, max_slip) is Ok,
    ensures
        crate::invariants::spec_fee_bounds(amount, spec_swap_plan(p, o, from, to, amount, user, now, max_slip).unwrap().fee),
{
    let fee = (amount * 30) / 10000;
    assert(spec_swap_plan(p, o, from, to, amount, user, now, max_slip).unwrap().fee == fee);
    assert(0 <= fee <= (amount * 100) / 10000) by (nonlinear_arith)
        requires
            amount > 0, fee == (amount * 30) / 10000;
}

/// A pool swap creates no assets: the user gives `amount` of the input
/// token and the output reserve gives exactly what the user receives, while
/// the input reserve takes at most the amount net of the LP fee, so the
/// input token held by the user and the pool together, plus the fee, never
/// grows. Stated for a swap between XLM and the pool's other token, with
/// positive reserves and an input reserve that does not saturate.
pub proof fn lemma_pool_swap_conserves_assets(
    p: PortfolioView,
    o: OracleView,
    from: Seq<char>,
    to: Seq<char>,
    amount: i128,
    user: u64,
    now: u64,
    max_slip: u32,
)
    requires
        p.xlm_in_pool > 0,
        p.usdc_in_pool > 0,
        from == xlm_chars() ==> p.xlm_in_pool + amount <= i128::MAX,
        from != xlm_chars() ==> p.usdc_in_pool + amount <= i128::MAX,
        spec_swap_plan(p, o, from, to, amount, user, now, max_slip) is Ok,
    ensures
        ({
            let plan = spec_swap_plan(p, o, from, to, amount, user, now, max_slip).unwrap();
            let q = spec_apply_swap(p, from, to, amount, user, plan);
            let (in_before, in_after, out_before, out_after) = if from == xlm_chars() {
                (p.xlm_in_pool as int, q.xlm_in_pool as int, p.usdc_in_pool as int, q.usdc_in_pool as int)
            } else {
                (p.usdc_in_pool as int, q.usdc_in_pool as int, p.xlm_in_pool as int, q.xlm_in_pool as int)
            };
            &&& q.balance(user, token_asset(from)) == p.balance(user, token_asset(from)) - amount
            &&& q.balance(user, token_asset(to)) == p.balance(user, token_asset(to)) + plan.out
            &&& out_after == out_before - plan.out
            &&& in_before <= in_after
            &&& (in_after - in_before) + plan.fee <= amount
        }),
{
    let plan = spec_swap_plan(p, o, from, to, amount, user, now, max_slip).unwrap();
    let (rin, rout) = spec_reserves(p, from);
    let af = (amount * 9970) / 10000;
    let fee = (amount * 30) / 10000;
    assert(plan.pool_active);
    assert(plan.fee == fee);
    assert(0 <= af && af + fee <= amount) by (nonlinear_arith)
        requires
            amount > 0, af == (amount * 9970) / 10000, fee == (amount * 30) / 10000;
    let num = clamp_u128(rout * af);
    let den = clamp_u128(rin + af);
    assert(af < den);
    assert(0 <= rout * af) by (nonlinear_arith)
        requires
            rout > 0, af >= 0;
    let actual = num / den;
    assert(0 <= actual && actual * den <= num) by (nonlinear_arith)
        requires
            den > 0, num >= 0, actual == num / den;
    lemma_pool_output_below_reserve(rout, af, den, actual);
    lemma_pool_credit_within(rin, rout, af, actual);
    assert(plan.out == actual);
    assert(plan.pool_in == pool_credit(rin, rout, actual, af));
    assert(token_asset(from) != token_asset(to));
}


/// The oracle price of a pair: a fresh direct price is used as stored; with
/// no direct price, a fresh non-zero reverse price `q` is inverted, so the
/// price returned times `q` is `PRECISION * PRECISION` rounded down, and the
/// two prices multiply to about `PRECISION` squared. A price older than
/// `STALE_THRESHOLD_SECONDS` is reported stale, a zero reverse price
/// invalid, and no price at all as not set.
pub proof fn lemma_price_lookup_inverts_reverse(o: OracleView, from: Seq<char>, to: Seq<char>, now: u64)
    ensures
        o.prices.contains_key((from, to)) && o.prices[(from, to)].timestamp <= now
            && now - o.prices[(from, to)].timestamp <= STALE_THRESHOLD_SECONDS
            ==> spec_price_lookup(o, from, to, now) == PriceLookup::Price(o.prices[(from, to)].price),
        !o.prices.contains_key((from, to)) && o.prices.contains_key((to, from))
            && o.prices[(to, from)].timestamp <= now
            && now - o.prices[(to, from)].timestamp <= STALE_THRESHOLD_SECONDS
            && o.prices[(to, from)].price > 0
            ==> (spec_price_lookup(o, from, to, now) matches PriceLookup::Price(p)
                && p * o.prices[(to, from)].price <= PRECISION * PRECISION
                && PRECISION * PRECISION < (p + 1) * o.prices[(to, from)].price),
        !o.prices.contains_key((from, to)) && !o.prices.contains_key((to, from))
            ==> spec_price_lookup(o, from, to, now) == PriceLookup::NotSet,
        o.prices.contains_key((from, to)) && o.prices[(from, to)].timestamp <= now
            && now - o.prices[(from, to)].timestamp > STALE_THRESHOLD_SECONDS
            ==> spec_price_lookup(o, from, to, now) == PriceLookup::Stale,
        !o.prices.contains_key((from, to)) && o.prices.contains_key((to, from))
            && o.prices[(to, from)].timestamp <= now
            && now - o.prices[(to, from)].timestamp > STALE_THRESHOLD_SECONDS
            ==> spec_price_lookup(o, from, to, now) == PriceLookup::Stale,
        !o.prices.contains_key((from, to)) && o.prices.contains_key((to, from))
            && o.prices[(to, from)].timestamp <= now
            && now - o.prices[(to, from)].timestamp <= STALE_THRESHOLD_SECONDS
            && o.prices[(to, from)].price == 0
            ==> spec_price_lookup(o, from, to, now) == PriceLookup::Invalid,
        spec_price_lookup(o, from, to, now) is Price ==> o.prices.contains_key((from, to)) || o.prices.contains_key((to, from)),
{
    if !o.prices.contains_key((from, to)) && o.prices.contains_key((to, from)) {
        let q = o.prices[(to, from)].price as int;
        if q > 0 {
            let n = (PRECISION * PRECISION) as int;
            let p = n / q;
            assert(p * q <= n && n < (p + 1) * q) by (nonlinear_arith)
                requires q > 0, n >= 0, p == n / q;
            assert(0 <= p <= n) by (nonlinear_arith)
                requires q > 0, n >= 0, p == n / q;
            assert(n <= u128::MAX);
        }
    }
}

/// What a swap pays out. With an empty pool side the oracle prices it: the
/// output is `amount * price / PRECISION` rounded down, and 1:1 when no
/// price is recorded. With both reserves positive the pool prices it on the
/// input net of the 0.3% fee `af`: the output is `rout * af / (rin + af)`
/// rounded down (where `rout * af` and `rin + af` fit a `u128`). The LP fee is 0.3% of the
/// amount, rounded down.
pub proof fn lemma_swap_output(
    p: PortfolioView,
    o: OracleView,
    from: Seq<char>,
    to: Seq<char>,
    amount: i128,
    user: u64,
    now: u64,
    max_slip: u32,
)
    requires
        spec_swap_plan(p, o, from, to, amount, user, now, max_slip) is Ok,
    ensures
        ({
            let plan = spec_swap_plan(p, o, from, to, amount, user, now, max_slip).unwrap();
            let (rin, rout) = spec_reserves(p, from);
            let af = (amount * 9970) / 10000;
            &&& plan.fee * 10000 <= amount * 30 < (plan.fee + 1) * 10000
            &&& af * 10000 <= amount * 9970 < (af + 1) * 10000
            &&& !(rin > 0 && rout > 0) ==> match spec_price_lookup(o, from, to, now) {
                PriceLookup::Price(q) => plan.out * PRECISION <= amount * q < (plan.out + 1) * PRECISION,
                PriceLookup::NotSet => plan.out == amount,
                _ => false,
            }
            &&& rin > 0 && rout > 0 && rout * af <= u128::MAX && rin + af <= u128::MAX
                ==> plan.out * (rin + af) <= rout * af < (plan.out + 1) * (rin + af)
        }),
{
    let plan = spec_swap_plan(p, o, from, to, amount, user, now, max_slip).unwrap();
    let (rin, rout) = spec_reserves(p, from);
    let af = (amount * 9970) / 10000;
    let fee = (amount * 30) / 10000;
    assert(fee * 10000 <= amount * 30 < (fee + 1) * 10000) by (nonlinear_arith)
        requires amount > 0, fee == (amount * 30) / 10000;
    assert(af * 10000 <= amount * 9970 < (af + 1) * 10000) by (nonlinear_arith)
        requires amount > 0, af == (amount * 9970) / 10000;
    assert(0 <= af <= amount) by (nonlinear_arith)
        requires amount > 0, af == (amount * 9970) / 10000;
    if rin > 0 && rout > 0 {
        if rout * af <= u128::MAX && rin + af <= u128::MAX {
            let den = clamp_u128(rin + af);
            assert(0 <= rout * af) by (nonlinear_arith)
                requires rout > 0, af >= 0;
            let num = rout * af;
            let a = num / den;
            assert(den == rin + af);
            assert(a * den <= num < (a + 1) * den && 0 <= a) by (nonlinear_arith)
                requires den > 0, num >= 0, a == num / den;
            lemma_pool_output_below_reserve(rout, af, den, a);
            assert(plan.out == a);
        }
    } else {
        match spec_price_lookup(o, from, to, now) {
            PriceLookup::Price(q) => {
                let num = amount * q;
                let a = num / (PRECISION as int);
                assert(0 <= num) by (nonlinear_arith)
                    requires amount > 0, q >= 0, num == amount * q;
                assert(a * PRECISION <= num < (a + 1) * PRECISION && 0 <= a <= num) by (nonlinear_arith)
                    requires num >= 0, a == num / (PRECISION as int), PRECISION > 0;
                assert(plan.out == a);
            },
            PriceLookup::NotSet => {
                assert((amount * PRECISION) / (PRECISION as int) == amount) by (nonlinear_arith)
                    requires PRECISION > 0;
            },
            _ => {},
        }
    }
}

} // verus!
