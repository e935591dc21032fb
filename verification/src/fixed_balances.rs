//! A simple balance book in which every user holds a fixed 1000 of every
//! token; deposits of nothing and withdrawals beyond the holding are
//! refused.

use vstd::prelude::*;
use crate::errors::SwapTradeError;

verus! {

/// What every user holds of every token.
pub const FIXED_BALANCE: u128 = 1000;

/// `user`'s balance of `token`: always the fixed holding.
pub fn get_balance(user: u64, token: &String) -> (r: Option<u128>)
    ensures
        r == Some(FIXED_BALANCE),
{
    Some(FIXED_BALANCE)
}

/// Accept a deposit; a zero amount is refused.
pub fn deposit(user: u64, token: &String, amount: u128) -> (r: Result<(), SwapTradeError>)
    ensures
        amount == 0 ==> r == Err::<(), SwapTradeError>(SwapTradeError::ZeroAmountSwap),
        amount != 0 ==> r is Ok,
{
    if amount == 0 {
        return Err(SwapTradeError::ZeroAmountSwap);
    }
    Ok(())
}

/// Accept a withdrawal the holding covers; a larger one is refused.
pub fn withdraw(user: u64, token: &String, amount: u128) -> (r: Result<(), SwapTradeError>)
    ensures
        amount > FIXED_BALANCE ==> r == Err::<(), SwapTradeError>(SwapTradeError::InsufficientBalance),
        amount <= FIXED_BALANCE ==> r is Ok,
{
    let balance = match get_balance(user, token) {
        Some(b) => b,
        None => {
            return Err(SwapTradeError::InsufficientBalance);
        },
    };
    if balance < amount {
        return Err(SwapTradeError::InsufficientBalance);
    }
    Ok(())
}

} // verus!
