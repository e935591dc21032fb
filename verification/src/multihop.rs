//! Multi-hop swaps along a route of pools. The route is walked one hop at a
//! time: each hop swaps the running amount in the next pool with a minimum
//! output (the caller's minimum on the last hop, a share of the running
//! amount before it), and the final amount must reach the caller's minimum.
//! The pools themselves perform each hop; this module decides what each hop
//! asks for and what the whole route returns.

use vstd::prelude::*;
use crate::errors::SwapTradeError;
use crate::math::{clamp_u128, wrap_u128, wrap_i128, sat_mul_u128, to_u128_bits, to_i128_bits};

verus! {

/// A route through pools: `tokens[i]` enters pool `pools[i]`.
pub struct Route {
    pub pools: Vec<u64>,
    pub tokens: Vec<String>,
    pub expected_output: i128,
    pub total_price_impact_bps: u32,
}

/// One hop to perform: swap `amount_in` of `token_in` in pool `pool_id`,
/// receiving at least `min_amount_out`.
pub struct HopRequest {
    pub pool_id: u64,
    pub token_in: String,
    pub amount_in: i128,
    pub min_amount_out: i128,
}

/// How far a multi-hop swap has come: the next hop and the running amount.
#[derive(Clone, Copy, Debug, PartialEq, Eq, Structural)]
pub struct MultihopProgress {
    pub hop: usize,
    pub amount: i128,
}

/// Slippage allowed on hop `hop` of `hops`, in basis points: the whole
/// 10000 shared evenly over the hops that remain.
pub open spec fn hop_slippage_bps(hop: int, hops: int) -> int {
    let remaining = hops - hop;
    10000int / (if remaining >= 1 { remaining } else { 1int })
}

/// Minimum output of hop `hop` of `hops` on `amount`: the caller's minimum
/// on the last hop; before it, the amount less the hop's slippage share
/// (the amount read as `u128` bits, the product saturating).
pub open spec fn hop_min_out(hop: int, hops: int, amount: i128, min_amount_out: i128) -> i128 {
    if hop == hops - 1 {
        min_amount_out
    } else {
        wrap_i128((clamp_u128(wrap_u128(amount) * (10000 - hop_slippage_bps(hop, hops))) / 10000) as u128) as i128
    }
}

/// Start a multi-hop swap of `amount_in` along `route`: the route must have
/// a pool and the amount must be positive.
pub fn start_multihop(route: &Route, amount_in: i128) -> (r: Result<MultihopProgress, SwapTradeError>)
    ensures
        route.pools@.len() == 0 ==> r == Err::<MultihopProgress, SwapTradeError>(SwapTradeError::InvalidAmount),
        route.pools@.len() > 0 && amount_in <= 0 ==> r == Err::<MultihopProgress, SwapTradeError>(SwapTradeError::InvalidAmount),
        route.pools@.len() > 0 && amount_in > 0 ==> r == Ok::<MultihopProgress, SwapTradeError>(MultihopProgress { hop: 0, amount: amount_in }),
{
    if route.pools.len() == 0 {
        return Err(SwapTradeError::InvalidAmount);
    }
    if amount_in <= 0 {
        return Err(SwapTradeError::InvalidAmount);
    }
    Ok(MultihopProgress { hop: 0, amount: amount_in })
}

/// The next hop to perform; `InvalidTokenSymbol` when the route names no
/// token for it.
pub fn next_hop_request(route: &Route, progress: MultihopProgress, min_amount_out: i128) -> (r: Result<HopRequest, SwapTradeError>)
    requires
        progress.hop < route.pools@.len(),
    ensures
        progress.hop >= route.tokens@.len() ==> (r matches Err(e) && e == SwapTradeError::InvalidTokenSymbol),
        progress.hop < route.tokens@.len() ==> (r matches Ok(req) && {
            &&& req.pool_id == route.pools@[progress.hop as int]
            &&& req.token_in@ == route.tokens@[progress.hop as int]@
            &&& req.amount_in == progress.amount
            &&& req.min_amount_out == hop_min_out(progress.hop as int, route.pools@.len() as int, progress.amount, min_amount_out)
        }),
{
    let i = progress.hop;
    let n = route.pools.len();
    let pool_id = route.pools[i];
    if i >= route.tokens.len() {
        return Err(SwapTradeError::InvalidTokenSymbol);
    }
    let token_in = route.tokens[i].clone();
    let remaining = n - i;
    let divisor = if remaining >= 1 { remaining } else { 1 };
    let hop_slippage: usize = 10000 / divisor;
    let min_hop_out: i128 = if i == n - 1 {
        min_amount_out
    } else {
        let scaled = sat_mul_u128(to_u128_bits(progress.amount), (10000 - hop_slippage) as u128);
        to_i128_bits(scaled / 10000)
    };
    Ok(HopRequest { pool_id, token_in, amount_in: progress.amount, min_amount_out: min_hop_out })
}

/// Record the output of the hop just performed.
pub fn advance_hop(progress: MultihopProgress, output: i128) -> (next: MultihopProgress)
    requires
        progress.hop < usize::MAX,
    ensures
        next == (MultihopProgress { hop: (progress.hop + 1) as usize, amount: output }),
{
    MultihopProgress { hop: progress.hop + 1, amount: output }
}

/// The result of a route whose every hop was performed: the final amount,
/// or `SlippageExceeded` when it falls short of the caller's minimum.
pub fn finish_multihop(progress: MultihopProgress, min_amount_out: i128) -> (r: Result<i128, SwapTradeError>)
    ensures
        progress.amount < min_amount_out ==> r == Err::<i128, SwapTradeError>(SwapTradeError::SlippageExceeded),
        progress.amount >= min_amount_out ==> r == Ok::<i128, SwapTradeError>(progress.amount),
{
    if progress.amount < min_amount_out {
        return Err(SwapTradeError::SlippageExceeded);
    }
    Ok(progress.amount)
}

/// On a route of more than one hop, every hop before the last asks for at
/// most the amount it swaps (for a non-negative amount).
pub proof fn lemma_intermediate_min_within_amount(hop: int, hops: int, amount: i128, min_amount_out: i128)
    requires
        0 <= hop < hops - 1,
        amount >= 0,
    ensures
        0 <= hop_min_out(hop, hops, amount, min_amount_out) <= amount,
{
    let s = hop_slippage_bps(hop, hops);
    assert(0 <= s <= 10000) by (nonlinear_arith)
        requires s == 10000int / (hops - hop), hops - hop >= 2;
    assert(wrap_u128(amount) == amount);
    let x = amount * (10000 - s);
    assert(0 <= x <= amount * 10000) by (nonlinear_arith)
        requires amount >= 0, 0 <= s <= 10000, x == amount * (10000 - s);
    let c = clamp_u128(x);
    assert(0 <= c <= x);
    assert(c / 10000 <= x / 10000) by (nonlinear_arith)
        requires 0 <= c <= x;
    assert(x / 10000 <= amount) by (nonlinear_arith)
        requires 0 <= x <= amount * 10000;
}

} // verus!
