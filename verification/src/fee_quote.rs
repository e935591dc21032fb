//! The fee quote of a swap: refused while trading is paused, otherwise the
//! amount at the user's effective fee rate (the tier fee after achievement
//! discounts, which the caller supplies).

use vstd::prelude::*;
use crate::errors::SwapTradeError;
use crate::tiers::bps_fee;

verus! {

/// Quote the fee of swapping `amount` at `effective_fee_bps` basis points:
/// `TradingPaused` while trading is paused, else `amount * bps / 10000`
/// rounded toward zero. The product must fit in an `i128`.
pub fn swap(paused: bool, amount: i128, effective_fee_bps: u32) -> (r: Result<i128, SwapTradeError>)
    requires
        !paused ==> i128::MIN <= amount * effective_fee_bps <= i128::MAX,
    ensures
        paused ==> r == Err::<i128, SwapTradeError>(SwapTradeError::TradingPaused),
        !paused ==> r == Ok::<i128, SwapTradeError>(bps_fee(amount as int, effective_fee_bps as int) as i128),
{
    if paused {
        return Err(SwapTradeError::TradingPaused);
    }
    let fee_amount = (amount * effective_fee_bps as i128) / 10000;
    Ok(fee_amount)
}

} // verus!
