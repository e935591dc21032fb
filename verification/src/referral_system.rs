//! Two-level referral commissions: a user names one referrer; fees a user
//! pays earn their referrer a direct commission and the referrer's own
//! referrer an indirect one, at rates set by the trader's volume tier.
//! Referral chains never loop back within three links.

use vstd::prelude::*;
use crate::errors::SwapTradeError;
use crate::store::KeyedList;
use crate::portfolio::get_or;

verus! {

/// How far a referrer stands from the referee.
#[derive(Clone, Copy, Debug, PartialEq, Eq, Structural)]
pub enum ReferralLevel {
    Direct,
    Indirect,
}

/// The record of a referral.
#[derive(Clone, Copy, Debug, PartialEq, Eq, Structural)]
pub struct ReferralInfo {
    pub referrer: u64,
    pub level: ReferralLevel,
    pub registration_timestamp: u64,
}

/// A referrer's statistics.
#[derive(Clone, Copy, Debug, PartialEq, Eq, Structural)]
pub struct ReferralStats {
    pub direct_referrals: u32,
    pub indirect_referrals: u32,
    pub total_commission_earned: i128,
    pub total_referee_volume: i128,
}

/// Commission rates of a volume tier, in basis points.
#[derive(Clone, Copy, Debug, PartialEq, Eq, Structural)]
pub struct TierConfig {
    pub volume_threshold: i128,
    pub direct_commission_bps: u32,
    pub indirect_commission_bps: u32,
}

impl View for ReferralInfo {
    type V = ReferralInfo;

    open spec fn view(&self) -> ReferralInfo {
        *self
    }
}

impl View for ReferralStats {
    type V = ReferralStats;

    open spec fn view(&self) -> ReferralStats {
        *self
    }
}

/// Statistics of a referrer with no activity.
pub open spec fn empty_stats() -> ReferralStats {
    ReferralStats { direct_referrals: 0, indirect_referrals: 0, total_commission_earned: 0, total_referee_volume: 0 }
}

/// The base tier: 0.5% direct, 0.2% indirect.
pub open spec fn tier_one() -> TierConfig {
    TierConfig { volume_threshold: 0, direct_commission_bps: 50, indirect_commission_bps: 20 }
}

/// From 10,000 of volume: 0.75% direct, 0.3% indirect.
pub open spec fn tier_two() -> TierConfig {
    TierConfig { volume_threshold: 10000, direct_commission_bps: 75, indirect_commission_bps: 30 }
}

/// From 50,000 of volume: 1% direct, 0.4% indirect.
pub open spec fn tier_three() -> TierConfig {
    TierConfig { volume_threshold: 50000, direct_commission_bps: 100, indirect_commission_bps: 40 }
}

/// The tier that `volume` reaches.
pub open spec fn spec_tier_for_volume(volume: i128) -> TierConfig {
    if volume >= tier_three().volume_threshold {
        tier_three()
    } else if volume >= tier_two().volume_threshold {
        tier_two()
    } else {
        tier_one()
    }
}

/// Abstract state of the referral network.
pub struct NetworkView {
    pub referrer_of: Map<u64, u64>,
    pub info: Map<u64, ReferralInfo>,
    pub stats: Map<u64, ReferralStats>,
    pub volume: Map<u64, i128>,
    pub commission: Map<u64, i128>,
}

impl NetworkView {
    /// Statistics of `user`.
    pub open spec fn stats_of(self, user: u64) -> ReferralStats {
        get_or(self.stats, user, empty_stats())
    }

    /// Fee volume of `user`.
    pub open spec fn volume_of(self, user: u64) -> i128 {
        get_or(self.volume, user, 0i128)
    }

    /// Commission balance of `user`.
    pub open spec fn balance_of(self, user: u64) -> i128 {
        get_or(self.commission, user, 0i128)
    }

    /// Whether linking `referred` under `referrer` would close a loop:
    /// `referred` is `referrer`'s referrer or that one's referrer.
    pub open spec fn circular(self, referrer: u64, referred: u64) -> bool {
        self.referrer_of.contains_key(referrer) && {
            let r1 = self.referrer_of[referrer];
            r1 == referred || (self.referrer_of.contains_key(r1) && self.referrer_of[r1] == referred)
        }
    }

    /// No user is linked to themselves or within two links of a loop back.
    pub open spec fn loop_free(self) -> bool {
        forall|u: u64| #[trigger] self.referrer_of.contains_key(u) ==> !self.circular(self.referrer_of[u], u) && self.referrer_of[u] != u
    }
}

/// Why linking `referred` under `referrer` is refused, if it is.
pub open spec fn spec_referral_refusal(n: NetworkView, referrer: u64, referred: u64) -> Option<SwapTradeError> {
    if referrer == referred {
        Some(SwapTradeError::SelfReferral)
    } else if n.referrer_of.contains_key(referred) {
        Some(SwapTradeError::AlreadyReferred)
    } else if n.circular(referrer, referred) {
        Some(SwapTradeError::CircularReferral)
    } else {
        None
    }
}

/// State after `referred` is linked under `referrer` at time `now`.
pub open spec fn spec_register_referral(n: NetworkView, referrer: u64, referred: u64, now: u64) -> NetworkView {
    let s = n.stats_of(referrer);
    NetworkView {
        referrer_of: n.referrer_of.insert(referred, referrer),
        info: n.info.insert(referred, ReferralInfo { referrer, level: ReferralLevel::Direct, registration_timestamp: now }),
        stats: n.stats.insert(referrer, ReferralStats { direct_referrals: (s.direct_referrals + 1) as u32, ..s }),
        ..n
    }
}

/// `amount` of commission credited to `user` for a fee of `fee`.
pub open spec fn spec_add_commission(n: NetworkView, user: u64, amount: i128, fee: i128) -> NetworkView {
    let s = n.stats_of(user);
    NetworkView {
        commission: n.commission.insert(user, (n.balance_of(user) + amount) as i128),
        stats: n.stats.insert(user, ReferralStats {
            total_commission_earned: (s.total_commission_earned + amount) as i128,
            total_referee_volume: (s.total_referee_volume + fee) as i128,
            ..s
        }),
        ..n
    }
}

/// Crediting `amount` to `user` for a fee of `fee` fits every counter.
pub open spec fn commission_fits(n: NetworkView, user: u64, amount: i128, fee: i128) -> bool {
    n.balance_of(user) + amount <= i128::MAX
        && n.stats_of(user).total_commission_earned + amount <= i128::MAX
        && n.stats_of(user).total_referee_volume + fee <= i128::MAX
}

/// Commission at `bps` basis points of a positive `fee`.
pub open spec fn commission_at(fee: i128, bps: u32) -> i128 {
    ((fee * bps) / 10000) as i128
}

/// The network after `trader` paid `fee`, and whether every addition on
/// the way fits its counter.
pub open spec fn spec_distribute(n: NetworkView, trader: u64, fee: i128) -> (NetworkView, bool) {
    if fee <= 0 {
        (n, true)
    } else {
        let tier = spec_tier_for_volume((n.volume_of(trader) + fee) as i128);
        let fits0 = n.volume_of(trader) + fee <= i128::MAX && fee * 100 <= i128::MAX;
        let n1 = NetworkView { volume: n.volume.insert(trader, (n.volume_of(trader) + fee) as i128), ..n };
        if !n1.referrer_of.contains_key(trader) {
            (n1, fits0)
        } else {
            let d = n1.referrer_of[trader];
            let dc = commission_at(fee, tier.direct_commission_bps);
            let fits1 = dc > 0 ==> commission_fits(n1, d, dc, fee);
            let n2 = if dc > 0 { spec_add_commission(n1, d, dc, fee) } else { n1 };
            if !n2.referrer_of.contains_key(d) {
                (n2, fits0 && fits1)
            } else {
                let i = n2.referrer_of[d];
                let ic = commission_at(fee, tier.indirect_commission_bps);
                let fits2 = ic > 0 ==> commission_fits(n2, i, ic, fee);
                (if ic > 0 { spec_add_commission(n2, i, ic, fee) } else { n2 }, fits0 && fits1 && fits2)
            }
        }
    }
}

/// The referral network's stored state.
pub struct ReferralNetwork {
    referrer: KeyedList<u64, u64>,
    info: KeyedList<u64, ReferralInfo>,
    stats: KeyedList<u64, ReferralStats>,
    volume: KeyedList<u64, i128>,
    commission: KeyedList<u64, i128>,
}

impl View for ReferralNetwork {
    type V = NetworkView;

    closed spec fn view(&self) -> NetworkView {
        NetworkView {
            referrer_of: self.referrer@,
            info: self.info@,
            stats: self.stats@,
            volume: self.volume@,
            commission: self.commission@,
        }
    }
}

impl ReferralNetwork {
    /// A network with no links and no balances.
    pub fn new() -> (r: ReferralNetwork)
        ensures
            r@.referrer_of.is_empty(),
            r@.info.is_empty(),
            r@.stats.is_empty(),
            r@.volume.is_empty(),
            r@.commission.is_empty(),
    {
        ReferralNetwork {
            referrer: KeyedList::new(),
            info: KeyedList::new(),
            stats: KeyedList::new(),
            volume: KeyedList::new(),
            commission: KeyedList::new(),
        }
    }

    /// The referrer of `user`, if any.
    pub fn get_referrer(&self, user: u64) -> (r: Option<u64>)
        ensures
            match r {
                Some(x) => self@.referrer_of.contains_key(user) && x == self@.referrer_of[user],
                None => !self@.referrer_of.contains_key(user),
            },
    {
        match self.referrer.get(&user) {
            Some(x) => Some(*x),
            None => None,
        }
    }

    /// The record of `user`'s referral, if any.
    pub fn get_referral_info(&self, user: u64) -> (r: Option<ReferralInfo>)
        ensures
            match r {
                Some(x) => self@.info.contains_key(user) && x == self@.info[user],
                None => !self@.info.contains_key(user),
            },
    {
        match self.info.get(&user) {
            Some(x) => Some(*x),
            None => None,
        }
    }

    fn volume_of(&self, user: u64) -> (v: i128)
        ensures
            v == self@.volume_of(user),
    {
        match self.volume.get(&user) {
            Some(x) => *x,
            None => 0,
        }
    }

    fn add_commission(&mut self, user: u64, amount: i128, fee: i128)
        requires
            amount > 0,
            fee > 0,
            commission_fits(old(self)@, user, amount, fee),
        ensures
            final(self)@ == spec_add_commission(old(self)@, user, amount, fee),
    {
        let balance = get_commission_balance(self, user);
        self.commission.set(user, balance + amount);
        let mut stats = get_referral_stats(self, user);
        stats.total_commission_earned = stats.total_commission_earned + amount;
        stats.total_referee_volume = stats.total_referee_volume + fee;
        self.stats.set(user, stats);
    }
}

/// Whether linking `referred` under `referrer` would close a loop.
fn is_circular_referral(network: &ReferralNetwork, referrer: u64, referred: u64) -> (r: bool)
    ensures
        r == network@.circular(referrer, referred),
{
    match network.get_referrer(referrer) {
        None => false,
        Some(r1) => {
            if r1 == referred {
                return true;
            }
            match network.get_referrer(r1) {
                None => false,
                Some(r2) => r2 == referred,
            }
        },
    }
}

/// Link `referred` under `referrer` at time `now`: refused for a self
/// referral, a user who already has a referrer, or a link that would close
/// a loop; otherwise the link and its record are stored and the referrer's
/// direct count goes up.
pub fn register_referral(network: &mut ReferralNetwork, referrer: u64, referred: u64, now: u64)
    -> (r: Result<(), SwapTradeError>)
    requires
        old(network)@.stats_of(referrer).direct_referrals < u32::MAX,
    ensures
        match spec_referral_refusal(old(network)@, referrer, referred) {
            Some(e) => r == Err::<(), SwapTradeError>(e) && final(network)@ == old(network)@,
            None => r is Ok && final(network)@ == spec_register_referral(old(network)@, referrer, referred, now),
        },
{
    if referrer == referred {
        return Err(SwapTradeError::SelfReferral);
    }
    if network.get_referrer(referred).is_some() {
        return Err(SwapTradeError::AlreadyReferred);
    }
    if is_circular_referral(network, referrer, referred) {
        return Err(SwapTradeError::CircularReferral);
    }
    network.referrer.set(referred, referrer);
    network.info.set(referred, ReferralInfo { referrer, level: ReferralLevel::Direct, registration_timestamp: now });
    let mut stats = get_referral_stats(network, referrer);
    stats.direct_referrals = stats.direct_referrals + 1;
    network.stats.set(referrer, stats);
    Ok(())
}

/// Statistics of `user` (all zero when none).
pub fn get_referral_stats(network: &ReferralNetwork, user: u64) -> (s: ReferralStats)
    ensures
        s == network@.stats_of(user),
{
    match network.stats.get(&user) {
        Some(s) => *s,
        None => ReferralStats { direct_referrals: 0, indirect_referrals: 0, total_commission_earned: 0, total_referee_volume: 0 },
    }
}

/// The commission tier `volume` reaches.
pub fn get_tier_for_volume(volume: i128) -> (t: TierConfig)
    ensures
        t == spec_tier_for_volume(volume),
{
    if volume >= 50000 {
        TierConfig { volume_threshold: 50000, direct_commission_bps: 100, indirect_commission_bps: 40 }
    } else if volume >= 10000 {
        TierConfig { volume_threshold: 10000, direct_commission_bps: 75, indirect_commission_bps: 30 }
    } else {
        TierConfig { volume_threshold: 0, direct_commission_bps: 50, indirect_commission_bps: 20 }
    }
}

/// Account a fee of `fee_amount` paid by `trader`: a positive fee adds to
/// the trader's volume, pays the direct referrer a commission at the rate
/// of the tier that volume (this fee included) reaches, and the indirect
/// referrer too;
/// each commission that rounds to zero is skipped. Every sum must fit.
pub fn calculate_and_distribute_commission(network: &mut ReferralNetwork, trader: u64, fee_amount: i128)
    requires
        spec_distribute(old(network)@, trader, fee_amount).1,
    ensures
        final(network)@ == spec_distribute(old(network)@, trader, fee_amount).0,
{
    if fee_amount <= 0 {
        return;
    }
    let trader_volume = network.volume_of(trader);
    let new_volume = trader_volume + fee_amount;
    network.volume.set(trader, new_volume);
    let tier = get_tier_for_volume(new_volume);
    let ghost n1 = network@;
    let direct = match network.get_referrer(trader) {
        Some(d) => d,
        None => {
            return;
        },
    };
    proof {
        assert(fee_amount * tier.direct_commission_bps <= fee_amount * 100) by (nonlinear_arith)
            requires fee_amount > 0, tier.direct_commission_bps <= 100;
        assert(fee_amount * tier.indirect_commission_bps <= fee_amount * 100) by (nonlinear_arith)
            requires fee_amount > 0, tier.indirect_commission_bps <= 100;
        assert(0 <= fee_amount * tier.direct_commission_bps) by (nonlinear_arith)
            requires fee_amount > 0;
        assert(0 <= fee_amount * tier.indirect_commission_bps) by (nonlinear_arith)
            requires fee_amount > 0;
    }
    let direct_commission = (fee_amount * tier.direct_commission_bps as i128) / 10000;
    if direct_commission > 0 {
        network.add_commission(direct, direct_commission, fee_amount);
    }
    let indirect = match network.get_referrer(direct) {
        Some(i) => i,
        None => {
            return;
        },
    };
    let indirect_commission = (fee_amount * tier.indirect_commission_bps as i128) / 10000;
    if indirect_commission > 0 {
        network.add_commission(indirect, indirect_commission, fee_amount);
    }
}

/// Pay out `user`'s commission: a positive balance is returned and reset;
/// otherwise 0 is returned and nothing changes.
pub fn withdraw_commission(network: &mut ReferralNetwork, user: u64) -> (paid: i128)
    ensures
        old(network)@.balance_of(user) <= 0 ==> paid == 0 && final(network)@ == old(network)@,
        old(network)@.balance_of(user) > 0 ==> paid == old(network)@.balance_of(user)
            && final(network)@ == (NetworkView { commission: old(network)@.commission.insert(user, 0), ..old(network)@ }),
{
    let balance = get_commission_balance(network, user);
    if balance <= 0 {
        return 0;
    }
    network.commission.set(user, 0);
    balance
}

/// Commission balance of `user`.
pub fn get_commission_balance(network: &ReferralNetwork, user: u64) -> (b: i128)
    ensures
        b == network@.balance_of(user),
{
    match network.commission.get(&user) {
        Some(b) => *b,
        None => 0,
    }
}

/// A higher volume never earns lower commission rates, and no tier pays
/// more than 1% direct or 0.4% indirect.
pub proof fn lemma_tier_rates_monotone(low: i128, high: i128)
    requires
        low <= high,
    ensures
        spec_tier_for_volume(low).direct_commission_bps <= spec_tier_for_volume(high).direct_commission_bps,
        spec_tier_for_volume(low).indirect_commission_bps <= spec_tier_for_volume(high).indirect_commission_bps,
        spec_tier_for_volume(high).direct_commission_bps <= 100,
        spec_tier_for_volume(high).indirect_commission_bps <= 40,
{
}

/// Registration keeps the network free of loops within three links.
pub proof fn lemma_register_keeps_loop_free(n: NetworkView, referrer: u64, referred: u64, now: u64)
    requires
        n.loop_free(),
        spec_referral_refusal(n, referrer, referred) is None,
    ensures
        spec_register_referral(n, referrer, referred, now).loop_free(),
{
    let m = spec_register_referral(n, referrer, referred, now);
    assert forall|u: u64| #[trigger] m.referrer_of.contains_key(u) implies !m.circular(m.referrer_of[u], u) && m.referrer_of[u] != u by {
        if u == referred {
            assert(m.referrer_of[u] == referrer);
        } else {
            assert(n.referrer_of.contains_key(u));
            let r = n.referrer_of[u];
            assert(!n.circular(r, u));
        }
    }
}

/// A withdrawal empties a positive balance, so a second one pays nothing.
pub proof fn lemma_withdraw_twice_pays_once(n: NetworkView, user: u64)
    requires
        n.balance_of(user) > 0,
    ensures
        (NetworkView { commission: n.commission.insert(user, 0), ..n }).balance_of(user) == 0,
{
}

/// Commission rates on a trader's fee: with `v` the trader's fee volume
/// including this fee, the trader's referrer is credited the fee times 0.5%
/// (below 10,000 of volume), 0.75% (from 10,000) or 1% (from 50,000), and
/// that referrer's own referrer the fee times 0.2%, 0.3% or 0.4% at the same
/// volume, each rounded down; no other balance changes, and the trader's
/// volume becomes `v`. Stated on a loop-free network where every addition
/// fits.
pub proof fn lemma_commission_rates(n: NetworkView, trader: u64, fee: i128, other: u64)
    requires
        fee > 0,
        n.loop_free(),
        spec_distribute(n, trader, fee).1,
    ensures
        ({
            let m = spec_distribute(n, trader, fee).0;
            let v = n.volume_of(trader) + fee;
            let direct_bps: int = if v >= 50000 { 100 } else if v >= 10000 { 75 } else { 50 };
            let indirect_bps: int = if v >= 50000 { 40 } else if v >= 10000 { 30 } else { 20 };
            let has_d = n.referrer_of.contains_key(trader);
            let d = n.referrer_of[trader];
            let has_i = has_d && n.referrer_of.contains_key(d);
            let i = n.referrer_of[d];
            &&& m.volume_of(trader) == v
            &&& has_d ==> m.balance_of(d) == n.balance_of(d) + (fee * direct_bps) / 10000
            &&& has_i ==> m.balance_of(i) == n.balance_of(i) + (fee * indirect_bps) / 10000
            &&& (!has_d || other != d) && (!has_i || other != i) ==> m.balance_of(other) == n.balance_of(other)
        }),
{
    let v = n.volume_of(trader) + fee;
    assert(fee * 100 <= i128::MAX);
    assert(0 <= fee * 40 <= fee * 100 && 0 <= fee * 20 <= fee * 30 <= fee * 75 <= fee * 100) by (nonlinear_arith)
        requires fee > 0;
    if n.referrer_of.contains_key(trader) {
        let d = n.referrer_of[trader];
        if n.referrer_of.contains_key(d) {
            assert(n.referrer_of[d] != d);
        }
    }
}

} // verus!
