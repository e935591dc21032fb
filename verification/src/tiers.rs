//! User tiers: the fee schedule and the rule that places a user in a tier.

use vstd::prelude::*;

verus! {

/// Trading tier of a user; higher tiers pay lower fees.
#[derive(Clone, Copy, Debug, PartialEq, Eq, Structural)]
pub enum UserTier {
    Novice,
    Trader,
    Expert,
    Whale,
}

/// Fee of a tier in basis points (1 bps = 0.01%).
pub open spec fn tier_fee_bps(tier: UserTier) -> u32 {
    match tier {
        UserTier::Novice => 30,
        UserTier::Trader => 25,
        UserTier::Expert => 20,
        UserTier::Whale => 15,
    }
}

/// Fee charged on `amount` at `bps` basis points, rounded toward zero.
pub open spec fn bps_fee(amount: int, bps: int) -> int {
    let p = amount * bps;
    if p >= 0 { p / 10000 } else { -((-p) / 10000) }
}

/// The tier that `trade_count` trades and `volume` of volume earn.
pub open spec fn spec_user_tier(trade_count: u32, volume: i128) -> UserTier {
    if trade_count >= 200 && volume >= 10000 {
        UserTier::Whale
    } else if trade_count >= 50 && volume >= 1000 {
        UserTier::Expert
    } else if trade_count >= 10 || volume >= 100 {
        UserTier::Trader
    } else {
        UserTier::Novice
    }
}

impl UserTier {
    /// Returns the effective fee in basis points for this tier.
    pub fn effective_fee_bps(&self) -> (bps: u32)
        ensures
            bps == tier_fee_bps(*self),
            15 <= bps <= 30,
    {
        match self {
            UserTier::Novice => 30,
            UserTier::Trader => 25,
            UserTier::Expert => 20,
            UserTier::Whale => 15,
        }
    }

    /// Fee for a swap of `swap_amount`: `swap_amount * bps / 10000`, rounded
    /// toward zero. The product must fit in an `i128`.
    pub fn calculate_fee(&self, swap_amount: i128) -> (fee: i128)
        requires
            i128::MIN <= swap_amount * tier_fee_bps(*self) <= i128::MAX,
        ensures
            fee == bps_fee(swap_amount as int, tier_fee_bps(*self) as int),
    {
        let bps = self.effective_fee_bps() as i128;
        let p = swap_amount * bps;
        p / 10000
    }
}

/// Calculate the user tier from trade count and volume:
/// Whale at 200+ trades and 10000+ volume, Expert at 50+ trades and 1000+
/// volume, Trader at 10+ trades or 100+ volume, Novice otherwise.
pub fn calculate_user_tier(trade_count: u32, volume: i128) -> (tier: UserTier)
    ensures
        tier == spec_user_tier(trade_count, volume),
{
    if trade_count >= 200 && volume >= 10000 {
        UserTier::Whale
    } else if trade_count >= 50 && volume >= 1000 {
        UserTier::Expert
    } else if trade_count >= 10 || volume >= 100 {
        UserTier::Trader
    } else {
        UserTier::Novice
    }
}

/// A tier's fee never exceeds 1% of the amount and is never negative for a
/// non-negative amount.
pub proof fn lemma_tier_fee_within_one_percent(tier: UserTier, amount: int)
    requires
        amount >= 0,
    ensures
        0 <= bps_fee(amount, tier_fee_bps(tier) as int) <= bps_fee(amount, 100),
{
    let b = tier_fee_bps(tier) as int;
    assert(0 <= amount * b <= amount * 100) by (nonlinear_arith)
        requires amount >= 0, 15 <= b <= 30;
    assert((amount * b) / 10000 <= (amount * 100) / 10000) by (nonlinear_arith)
        requires 0 <= amount * b <= amount * 100;
}

/// A fee of at most 100% lies between zero and the amount, on the amount's
/// side of zero.
pub proof fn lemma_bps_fee_between_zero_and_amount(amount: int, bps: int)
    requires
        0 <= bps <= 10000,
    ensures
        amount >= 0 ==> 0 <= bps_fee(amount, bps) <= amount,
        amount < 0 ==> amount <= bps_fee(amount, bps) <= 0,
{
    if amount >= 0 {
        assert(0 <= amount * bps <= amount * 10000) by (nonlinear_arith)
            requires amount >= 0, 0 <= bps <= 10000;
        assert((amount * bps) / 10000 <= (amount * 10000) / 10000) by (nonlinear_arith)
            requires 0 <= amount * bps <= amount * 10000;
    } else {
        assert(0 <= (-amount) * bps <= (-amount) * 10000) by (nonlinear_arith)
            requires amount < 0, 0 <= bps <= 10000;
        assert(amount * bps == -((-amount) * bps)) by (nonlinear_arith);
        assert(((-amount) * bps) / 10000 <= ((-amount) * 10000) / 10000) by (nonlinear_arith)
            requires 0 <= (-amount) * bps <= (-amount) * 10000;
    }
}


/// Position of a tier in the ladder Novice < Trader < Expert < Whale.
pub open spec fn tier_rank(tier: UserTier) -> int {
    match tier {
        UserTier::Novice => 0,
        UserTier::Trader => 1,
        UserTier::Expert => 2,
        UserTier::Whale => 3,
    }
}

/// Trading more never lowers a tier: with at least as many trades and at
/// least as much volume, a user stands at least as high.
pub proof fn lemma_tier_monotone(trades_a: u32, volume_a: i128, trades_b: u32, volume_b: i128)
    requires
        trades_a <= trades_b,
        volume_a <= volume_b,
    ensures
        tier_rank(spec_user_tier(trades_a, volume_a)) <= tier_rank(spec_user_tier(trades_b, volume_b)),
{
}

/// Higher tiers pay lower fees: a tier above another has a strictly smaller
/// fee rate, and so never charges more on a non-negative amount.
pub proof fn lemma_higher_tier_lower_fee(low: UserTier, high: UserTier, amount: int)
    requires
        tier_rank(low) < tier_rank(high),
        amount >= 0,
    ensures
        tier_fee_bps(high) < tier_fee_bps(low),
        bps_fee(amount, tier_fee_bps(high) as int) <= bps_fee(amount, tier_fee_bps(low) as int),
{
    let h = tier_fee_bps(high) as int;
    let l = tier_fee_bps(low) as int;
    assert(0 <= amount * h <= amount * l) by (nonlinear_arith)
        requires amount >= 0, 0 <= h < l;
    assert((amount * h) / 10000 <= (amount * l) / 10000) by (nonlinear_arith)
        requires 0 <= amount * h <= amount * l;
}


/// What each tier demands: Expert and Whale need at least 50 trades and at
/// least 1000 of volume (Whale at least 200 trades and 10000 of volume);
/// Trader and above need 10 trades or 100 of volume. Conversely, meeting a
/// tier's demands earns at least that tier. With fewer than 50 trades, or
/// less than 1000 of volume, a user is at most a Trader.
pub proof fn lemma_tier_thresholds(trade_count: u32, volume: i128)
    ensures
        spec_user_tier(trade_count, volume) == UserTier::Whale ==> trade_count >= 200 && volume >= 10000,
        spec_user_tier(trade_count, volume) == UserTier::Expert
            || spec_user_tier(trade_count, volume) == UserTier::Whale ==> trade_count >= 50 && volume >= 1000,
        spec_user_tier(trade_count, volume) != UserTier::Novice ==> trade_count >= 10 || volume >= 100,
        trade_count >= 200 && volume >= 10000 ==> spec_user_tier(trade_count, volume) == UserTier::Whale,
        trade_count >= 50 && volume >= 1000 ==> spec_user_tier(trade_count, volume) == UserTier::Expert
            || spec_user_tier(trade_count, volume) == UserTier::Whale,
        trade_count >= 10 || volume >= 100 ==> spec_user_tier(trade_count, volume) != UserTier::Novice,
        trade_count < 50 || volume < 1000 ==> spec_user_tier(trade_count, volume) == UserTier::Novice
            || spec_user_tier(trade_count, volume) == UserTier::Trader,
{
}

/// The fee schedule: a Novice pays 0.30% of a swap, a Trader 0.25%, an
/// Expert 0.20% and a Whale 0.15%, each rounded toward zero; so on a
/// non-negative amount `a`, the fee `f` of a tier with rate `r` per 10,000
/// satisfies `f * 10000 <= a * r < (f + 1) * 10000`.
pub proof fn lemma_tier_fee_schedule(tier: UserTier, amount: int)
    requires
        amount >= 0,
    ensures
        tier == UserTier::Novice ==> tier_fee_bps(tier) == 30,
        tier == UserTier::Trader ==> tier_fee_bps(tier) == 25,
        tier == UserTier::Expert ==> tier_fee_bps(tier) == 20,
        tier == UserTier::Whale ==> tier_fee_bps(tier) == 15,
        bps_fee(amount, tier_fee_bps(tier) as int) * 10000 <= amount * tier_fee_bps(tier)
            < (bps_fee(amount, tier_fee_bps(tier) as int) + 1) * 10000,
{
    let r = tier_fee_bps(tier) as int;
    let f = (amount * r) / 10000;
    assert(0 <= amount * r) by (nonlinear_arith)
        requires amount >= 0, r >= 0;
    assert(f * 10000 <= amount * r < (f + 1) * 10000) by (nonlinear_arith)
        requires amount * r >= 0, f == (amount * r) / 10000;
}

} // verus!
