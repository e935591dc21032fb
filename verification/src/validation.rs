//! Input validation for amounts, token symbols, swap pairs and users.

use vstd::prelude::*;
use crate::errors::SwapTradeError;
use crate::symbols::{xlm_chars, usdc_dash_sim_chars, is_xlm, is_usdc_dash_sim, same_symbol};

verus! {

/// Safe upper bound on an amount (prevents overflow abuse).
pub const MAX_AMOUNT: i128 = 1_000_000_000_000_000_000;

/// A token the platform accepts for swaps: `XLM` or `USDC-SIM`.
pub open spec fn is_supported_token(token: Seq<char>) -> bool {
    token == xlm_chars() || token == usdc_dash_sim_chars()
}

/// Accepts an amount in `1..=MAX_AMOUNT`; rejects a non-positive amount with
/// `InvalidAmount` and a larger one with `AmountOverflow`.
pub fn validate_amount(amount: i128) -> (r: Result<(), SwapTradeError>)
    ensures
        amount <= 0 ==> r == Err::<(), SwapTradeError>(SwapTradeError::InvalidAmount),
        amount > MAX_AMOUNT ==> r == Err::<(), SwapTradeError>(SwapTradeError::AmountOverflow),
        0 < amount <= MAX_AMOUNT ==> r is Ok,
{
    if amount <= 0 {
        return Err(SwapTradeError::InvalidAmount);
    }
    if amount > MAX_AMOUNT {
        return Err(SwapTradeError::AmountOverflow);
    }
    Ok(())
}

/// Accepts `XLM` and `USDC-SIM`; rejects any other symbol with
/// `InvalidTokenSymbol`.
pub fn validate_token_symbol(token: &String) -> (r: Result<(), SwapTradeError>)
    ensures
        is_supported_token(token@) ==> r is Ok,
        !is_supported_token(token@) ==> r == Err::<(), SwapTradeError>(SwapTradeError::InvalidTokenSymbol),
{
    if !is_xlm(token) && !is_usdc_dash_sim(token) {
        return Err(SwapTradeError::InvalidTokenSymbol);
    }
    Ok(())
}

/// Accepts any user but the zero account `0`, which is rejected with
/// `InvalidUserAddress`.
pub fn validate_user_address(address: u64) -> (r: Result<(), SwapTradeError>)
    ensures
        address == 0 ==> r == Err::<(), SwapTradeError>(SwapTradeError::InvalidUserAddress),
        address != 0 ==> r is Ok,
{
    if address == 0 {
        return Err(SwapTradeError::InvalidUserAddress);
    }
    Ok(())
}

/// Accepts a pair of two different supported tokens. A pair of one token
/// twice is `InvalidSwapPair`; otherwise an unsupported token is
/// `InvalidTokenSymbol`.
pub fn validate_swap_pair(from: &String, to: &String) -> (r: Result<(), SwapTradeError>)
    ensures
        from@ == to@ ==> r == Err::<(), SwapTradeError>(SwapTradeError::InvalidSwapPair),
        from@ != to@ && !(is_supported_token(from@) && is_supported_token(to@))
            ==> r == Err::<(), SwapTradeError>(SwapTradeError::InvalidTokenSymbol),
        from@ != to@ && is_supported_token(from@) && is_supported_token(to@) ==> r is Ok,
{
    if same_symbol(from, to) {
        return Err(SwapTradeError::InvalidSwapPair);
    }
    validate_token_symbol(from)?;
    validate_token_symbol(to)?;
    Ok(())
}

} // verus!
