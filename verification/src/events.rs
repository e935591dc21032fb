//! Contract events. Operations append typed events to an outbox that the
//! host publishes; badge awards are buffered and go out together as one
//! batch when flushed.

use vstd::prelude::*;
use crate::portfolio::Badge;
use crate::tiers::UserTier;

verus! {

/// A buffered badge award.
#[derive(Clone, Copy, Debug, PartialEq, Eq, Structural)]
pub struct BadgeEvent {
    pub user: u64,
    pub badge: Badge,
    pub timestamp: i64,
}

/// An event for the host to publish.
pub enum ContractEvent {
    SwapExecuted { user: u64, from_token: String, to_token: String, from_amount: i128, to_amount: i128, timestamp: i64 },
    LiquidityAdded { user: u64, xlm_amount: i128, usdc_amount: i128, lp_tokens_minted: i128, timestamp: i64 },
    LiquidityRemoved { user: u64, xlm_amount: i128, usdc_amount: i128, lp_tokens_burned: i128, timestamp: i64 },
    BadgesAwarded { events: Vec<BadgeEvent> },
    UserTierChanged { user: u64, old_tier: UserTier, new_tier: UserTier, timestamp: i64 },
    AdminPaused { admin: u64, timestamp: i64 },
    AdminResumed { admin: u64, timestamp: i64 },
    AssetAllocationAnalyzed { user: u64, total_assets: u32, diversification_score: u128, timestamp: i64 },
    BenchmarkComparisonCalculated { user: u64, benchmark_id: String, alpha: i128, beta: u128, timestamp: i64 },
    PeriodReturnsCalculated { user: u64, start_timestamp: u64, end_timestamp: u64, time_weighted_return: i128, timestamp: i64 },
}

/// The outbox of published events and the buffer of badge awards.
pub struct Events {
    pub published: Vec<ContractEvent>,
    pub badge_buffer: Vec<BadgeEvent>,
}

impl Events {
    /// No events yet.
    pub fn new() -> (e: Events)
        ensures
            e.published@.len() == 0,
            e.badge_buffer@.len() == 0,
    {
        Events { published: Vec::new(), badge_buffer: Vec::new() }
    }

    fn publish(&mut self, event: ContractEvent)
        ensures
            final(self).published@ == old(self).published@.push(event),
            final(self).badge_buffer@ == old(self).badge_buffer@,
    {
        self.published.push(event);
    }

    /// A swap was executed.
    pub fn swap_executed(&mut self, from_token: String, to_token: String, from_amount: i128, to_amount: i128, user: u64, timestamp: i64)
        ensures
            final(self).published@ == old(self).published@.push(
                ContractEvent::SwapExecuted { user, from_token, to_token, from_amount, to_amount, timestamp },
            ),
            final(self).badge_buffer@ == old(self).badge_buffer@,
    {
        self.publish(ContractEvent::SwapExecuted { user, from_token, to_token, from_amount, to_amount, timestamp });
    }

    /// Liquidity was added.
    pub fn liquidity_added(&mut self, xlm_amount: i128, usdc_amount: i128, lp_tokens_minted: i128, user: u64, timestamp: i64)
        ensures
            final(self).published@ == old(self).published@.push(
                ContractEvent::LiquidityAdded { user, xlm_amount, usdc_amount, lp_tokens_minted, timestamp },
            ),
            final(self).badge_buffer@ == old(self).badge_buffer@,
    {
        self.publish(ContractEvent::LiquidityAdded { user, xlm_amount, usdc_amount, lp_tokens_minted, timestamp });
    }

    /// Liquidity was removed.
    pub fn liquidity_removed(&mut self, xlm_amount: i128, usdc_amount: i128, lp_tokens_burned: i128, user: u64, timestamp: i64)
        ensures
            final(self).published@ == old(self).published@.push(
                ContractEvent::LiquidityRemoved { user, xlm_amount, usdc_amount, lp_tokens_burned, timestamp },
            ),
            final(self).badge_buffer@ == old(self).badge_buffer@,
    {
        self.publish(ContractEvent::LiquidityRemoved { user, xlm_amount, usdc_amount, lp_tokens_burned, timestamp });
    }

    /// Buffer a badge award until the next flush.
    pub fn badge_awarded(&mut self, user: u64, badge: Badge, timestamp: i64)
        ensures
            final(self).badge_buffer@ == old(self).badge_buffer@.push(BadgeEvent { user, badge, timestamp }),
            final(self).published@ == old(self).published@,
    {
        self.badge_buffer.push(BadgeEvent { user, badge, timestamp });
    }

    /// Publish the buffered badge awards as one event and empty the buffer;
    /// nothing happens when the buffer is empty.
    pub fn flush_badge_events(&mut self)
        ensures
            old(self).badge_buffer@.len() == 0 ==> final(self).published@ == old(self).published@
                && final(self).badge_buffer@ == old(self).badge_buffer@,
            old(self).badge_buffer@.len() > 0 ==> final(self).badge_buffer@.len() == 0
                && final(self).published@.len() == old(self).published@.len() + 1
                && final(self).published@.subrange(0, old(self).published@.len() as int) == old(self).published@
                && (final(self).published@.last() matches ContractEvent::BadgesAwarded { events } && events@ == old(self).badge_buffer@),
    {
        if self.badge_buffer.len() == 0 {
            return;
        }
        let mut events: Vec<BadgeEvent> = Vec::new();
        std::mem::swap(&mut events, &mut self.badge_buffer);
        let ghost buffered = events@;
        let ghost before = self.published@;
        self.published.push(ContractEvent::BadgesAwarded { events });
        proof {
            assert(self.published@.subrange(0, before.len() as int) =~= before);
        }
    }

    /// A user's tier changed.
    pub fn user_tier_changed(&mut self, user: u64, old_tier: UserTier, new_tier: UserTier, timestamp: i64)
        ensures
            final(self).published@ == old(self).published@.push(
                ContractEvent::UserTierChanged { user, old_tier, new_tier, timestamp },
            ),
            final(self).badge_buffer@ == old(self).badge_buffer@,
    {
        self.publish(ContractEvent::UserTierChanged { user, old_tier, new_tier, timestamp });
    }

    /// The admin paused trading.
    pub fn admin_paused(&mut self, admin: u64, timestamp: i64)
        ensures
            final(self).published@ == old(self).published@.push(ContractEvent::AdminPaused { admin, timestamp }),
            final(self).badge_buffer@ == old(self).badge_buffer@,
    {
        self.publish(ContractEvent::AdminPaused { admin, timestamp });
    }

    /// The admin resumed trading.
    pub fn admin_resumed(&mut self, admin: u64, timestamp: i64)
        ensures
            final(self).published@ == old(self).published@.push(ContractEvent::AdminResumed { admin, timestamp }),
            final(self).badge_buffer@ == old(self).badge_buffer@,
    {
        self.publish(ContractEvent::AdminResumed { admin, timestamp });
    }

    /// An asset allocation was analyzed.
    pub fn asset_allocation_analyzed(&mut self, user: u64, total_assets: u32, diversification_score: u128, timestamp: i64)
        ensures
            final(self).published@ == old(self).published@.push(
                ContractEvent::AssetAllocationAnalyzed { user, total_assets, diversification_score, timestamp },
            ),
            final(self).badge_buffer@ == old(self).badge_buffer@,
    {
        self.publish(ContractEvent::AssetAllocationAnalyzed { user, total_assets, diversification_score, timestamp });
    }

    /// A benchmark comparison was calculated.
    pub fn benchmark_comparison_calculated(&mut self, user: u64, benchmark_id: String, alpha: i128, beta: u128, timestamp: i64)
        ensures
            final(self).published@ == old(self).published@.push(
                ContractEvent::BenchmarkComparisonCalculated { user, benchmark_id, alpha, beta, timestamp },
            ),
            final(self).badge_buffer@ == old(self).badge_buffer@,
    {
        self.publish(ContractEvent::BenchmarkComparisonCalculated { user, benchmark_id, alpha, beta, timestamp });
    }

    /// Period returns were calculated.
    pub fn period_returns_calculated(&mut self, user: u64, start_timestamp: u64, end_timestamp: u64, time_weighted_return: i128, timestamp: i64)
        ensures
            final(self).published@ == old(self).published@.push(
                ContractEvent::PeriodReturnsCalculated { user, start_timestamp, end_timestamp, time_weighted_return, timestamp },
            ),
            final(self).badge_buffer@ == old(self).badge_buffer@,
    {
        self.publish(ContractEvent::PeriodReturnsCalculated { user, start_timestamp, end_timestamp, time_weighted_return, timestamp });
    }
}

} // verus!
