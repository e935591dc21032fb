//! The emergency gate in front of a swap: trading must not be paused, the
//! user must not be frozen, and the swap must not trip the circuit breaker
//! against the normal per-ledger volume; an admitted swap's amount is
//! tallied for its ledger.

use vstd::prelude::*;
use crate::errors::SwapTradeError;
use crate::emergency::{EmergencyState, EmergencyView, is_paused, is_frozen, would_trip_circuit_breaker, record_volume,
    spec_breaker_trips, volume_map, volume_added};

verus! {

/// Volume per ledger that the circuit breaker treats as normal.
pub const NORMAL_VOLUME: i128 = 1000;

/// Admit a swap of `amount` by `user` at ledger `height`: refused while
/// trading is paused, for a frozen user, or when the breaker would trip;
/// otherwise the amount is recorded for the ledger and 0 is returned.
pub fn perform_swap(state: &mut EmergencyState, user: u64, amount: i128, height: u32) -> (r: Result<i128, SwapTradeError>)
    requires
        i128::MIN <= crate::math::clamp_i128(old(state)@.volume_at(height as u64) + amount) * 10000 <= i128::MAX,
    ensures
        old(state)@.is_paused() ==> r == Err::<i128, SwapTradeError>(SwapTradeError::TradingPaused) && final(state)@ == old(state)@,
        !old(state)@.is_paused() && old(state)@.is_frozen(user) ==> r == Err::<i128, SwapTradeError>(SwapTradeError::UserFrozen)
            && final(state)@ == old(state)@,
        !old(state)@.is_paused() && !old(state)@.is_frozen(user) && spec_breaker_trips(old(state)@, amount, NORMAL_VOLUME, height as u64)
            ==> r == Err::<i128, SwapTradeError>(SwapTradeError::CircuitBreakerTripped) && final(state)@ == old(state)@,
        !old(state)@.is_paused() && !old(state)@.is_frozen(user) && !spec_breaker_trips(old(state)@, amount, NORMAL_VOLUME, height as u64)
            ==> r == Ok::<i128, SwapTradeError>(0)
            && volume_map(final(state)@.block_volume) == volume_added(old(state)@.block_volume, height as u64, amount)
            && final(state)@ == (EmergencyView { block_volume: final(state)@.block_volume, volume_stored: true, ..old(state)@ }),
{
    if is_paused(state) {
        return Err(SwapTradeError::TradingPaused);
    }
    if is_frozen(state, user) {
        return Err(SwapTradeError::UserFrozen);
    }
    if would_trip_circuit_breaker(state, amount, NORMAL_VOLUME, height) {
        return Err(SwapTradeError::CircuitBreakerTripped);
    }
    record_volume(state, amount, height);
    Ok(0)
}

} // verus!
