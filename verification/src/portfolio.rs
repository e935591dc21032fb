//! The portfolio ledger: balances per user and asset, trade counts, volumes,
//! profit-and-loss, badges, tiers, aggregate statistics, the top-traders
//! leaderboard, pool reserves and LP positions.

use vstd::prelude::*;
use crate::store::{KeyedList, KeyEq, Dup};
use crate::tiers::{UserTier, spec_user_tier, calculate_user_tier};
use crate::math::{clamp_i128, sat_add_i128, sat_sub_i128};
use crate::symbols::{usdcsim_chars, is_usdcsim, xlm_symbol, usdc_symbol};
use crate::leaderboard::{update_board, sorted_desc, board_with, stable_desc, board_ok};
use crate::math::{wrap_u128, to_u128_bits};

verus! {

/// An asset held in a portfolio: the native token or a token named by symbol.
pub enum Asset {
    XLM,
    Custom(String),
}

/// Abstract asset: the native token or a symbol's characters.
pub enum AssetId {
    Xlm,
    Custom(Seq<char>),
}

impl View for Asset {
    type V = AssetId;

    open spec fn view(&self) -> AssetId {
        match self {
            Asset::XLM => AssetId::Xlm,
            Asset::Custom(s) => AssetId::Custom(s@),
        }
    }
}

impl KeyEq for Asset {
    fn key_eq(&self, other: &Self) -> (r: bool) {
        match (self, other) {
            (Asset::XLM, Asset::XLM) => true,
            (Asset::Custom(a), Asset::Custom(b)) => *a == *b,
            _ => false,
        }
    }

    fn key_dup(&self) -> (r: Self) {
        match self {
            Asset::XLM => Asset::XLM,
            Asset::Custom(s) => Asset::Custom(s.clone()),
        }
    }
}

impl Asset {
    /// A copy of this asset.
    pub fn copy_asset(&self) -> (r: Asset)
        ensures
            r@ == self@,
    {
        self.key_dup()
    }
}

/// The pool's simulated USDC asset.
pub open spec fn usdc_pool_asset() -> AssetId {
    AssetId::Custom(usdcsim_chars())
}

/// Achievements a user can earn.
#[derive(Clone, Copy, Debug, PartialEq, Eq, Structural)]
pub enum Badge {
    /// 1+ trades.
    FirstTrade,
    /// 10+ trades.
    Trader,
    /// Balance at least 10x the starting amount.
    WealthBuilder,
    /// 1+ LP deposits.
    LiquidityProvider,
    /// 5+ different token pairs traded.
    Diversifier,
    /// Trades on 7+ different ledger heights.
    Consistency,
}

impl View for Badge {
    type V = Badge;

    open spec fn view(&self) -> Badge {
        *self
    }
}

impl KeyEq for Badge {
    fn key_eq(&self, other: &Self) -> (r: bool) {
        *self == *other
    }

    fn key_dup(&self) -> (r: Self) {
        *self
    }
}

impl View for UserTier {
    type V = UserTier;

    open spec fn view(&self) -> UserTier {
        *self
    }
}

impl Dup for UserTier {
    fn dup(&self) -> (r: Self) {
        *self
    }
}

/// Lightweight aggregate counters.
#[derive(Clone, Copy, Debug, PartialEq, Eq, Structural)]
pub struct Metrics {
    pub trades_executed: u32,
    pub failed_orders: u32,
    pub balances_updated: u32,
}

impl Metrics {
    /// All counters at zero.
    pub fn zero() -> (m: Metrics)
        ensures
            m == (Metrics { trades_executed: 0, failed_orders: 0, balances_updated: 0 }),
    {
        Metrics { trades_executed: 0, failed_orders: 0, balances_updated: 0 }
    }
}

/// A recorded swap.
#[derive(Debug, PartialEq, Eq)]
pub struct Transaction {
    pub timestamp: u64,
    pub from_token: String,
    pub to_token: String,
    pub from_amount: i128,
    pub to_amount: i128,
    /// Output per unit of input, with 7 decimals of precision.
    pub rate_achieved: u128,
}

impl Transaction {
    /// An exact copy.
    pub fn copy_tx(&self) -> (r: Transaction)
        ensures
            r == *self,
    {
        Transaction {
            timestamp: self.timestamp,
            from_token: self.from_token.clone(),
            to_token: self.to_token.clone(),
            from_amount: self.from_amount,
            to_amount: self.to_amount,
            rate_achieved: self.rate_achieved,
        }
    }
}

/// A liquidity provider's position.
#[derive(Clone, Copy, Debug, PartialEq, Eq, Structural)]
pub struct LPPosition {
    pub lp_address: u64,
    pub xlm_deposited: i128,
    pub usdc_deposited: i128,
    pub lp_tokens_minted: i128,
}

impl View for LPPosition {
    type V = LPPosition;

    open spec fn view(&self) -> LPPosition {
        *self
    }
}

impl Dup for LPPosition {
    fn dup(&self) -> (r: Self) {
        *self
    }
}

impl Dup for Vec<(String, String)> {
    fn dup(&self) -> (r: Self) {
        let mut out: Vec<(String, String)> = Vec::new();
        let mut i: usize = 0;
        while i < self.len()
            invariant
                0 <= i <= self.len(),
                out@.len() == i,
                forall|j: int| 0 <= j < i ==> out@[j] == self@[j],
            decreases self.len() - i,
        {
            let a = self[i].0.clone();
            let b = self[i].1.clone();
            out.push((a, b));
            i = i + 1;
        }
        assert(out@ =~= self@);
        out
    }
}

impl Dup for Vec<u64> {
    fn dup(&self) -> (r: Self) {
        let mut out: Vec<u64> = Vec::new();
        let mut i: usize = 0;
        while i < self.len()
            invariant
                0 <= i <= self.len(),
                out@.len() == i,
                forall|j: int| 0 <= j < i ==> out@[j] == self@[j],
            decreases self.len() - i,
        {
            out.push(self[i]);
            i = i + 1;
        }
        assert(out@ =~= self@);
        out
    }
}

impl Dup for Vec<Transaction> {
    fn dup(&self) -> (r: Self) {
        let mut out: Vec<Transaction> = Vec::new();
        let mut i: usize = 0;
        while i < self.len()
            invariant
                0 <= i <= self.len(),
                out@.len() == i,
                forall|j: int| 0 <= j < i ==> out@[j] == self@[j],
            decreases self.len() - i,
        {
            out.push(self[i].copy_tx());
            i = i + 1;
        }
        assert(out@ =~= self@);
        out
    }
}

/// The value of `k` in `m`, or `d` when absent.
pub open spec fn get_or<K, V>(m: Map<K, V>, k: K, d: V) -> V {
    if m.contains_key(k) { m[k] } else { d }
}

/// Abstract state of a portfolio.
pub struct PortfolioView {
    pub balances: Map<(u64, AssetId), i128>,
    pub trades: Map<u64, u32>,
    pub user_volumes: Map<u64, i128>,
    pub pnl: Map<u64, i128>,
    pub badges: Map<(u64, Badge), bool>,
    pub tiers: Map<u64, UserTier>,
    pub metrics: Metrics,
    pub total_users: u32,
    pub total_trading_volume: i128,
    pub active_users: Seq<u64>,
    pub top_traders: Seq<(u64, i128)>,
    pub xlm_in_pool: i128,
    pub usdc_in_pool: i128,
    pub total_fees_collected: i128,
    pub initial_balances: Map<u64, i128>,
    pub token_pairs_traded: Map<u64, Seq<(String, String)>>,
    pub ledger_heights_traded: Map<u64, Seq<u64>>,
    pub lp_deposits_count: Map<u64, u32>,
    pub transactions: Map<u64, Seq<Transaction>>,
    pub lp_positions: Map<u64, LPPosition>,
    pub total_lp_tokens: i128,
    pub lp_fees_accumulated: i128,
    pub migration_time: Option<u64>,
}

impl PortfolioView {
    /// Balance of `user` in `asset` (0 when never set).
    pub open spec fn balance(self, user: u64, asset: AssetId) -> i128 {
        get_or(self.balances, (user, asset), 0i128)
    }

    /// Trade count of `user`.
    pub open spec fn trade_count(self, user: u64) -> u32 {
        get_or(self.trades, user, 0u32)
    }

    /// Profit-and-loss of `user`.
    pub open spec fn user_pnl(self, user: u64) -> i128 {
        get_or(self.pnl, user, 0i128)
    }

    /// Trading volume of `user`.
    pub open spec fn volume(self, user: u64) -> i128 {
        get_or(self.user_volumes, user, 0i128)
    }

    /// Whether `user` holds `badge`.
    pub open spec fn holds_badge(self, user: u64, badge: Badge) -> bool {
        get_or(self.badges, (user, badge), false)
    }

    /// The tier that `user`'s trades and volume earn.
    pub open spec fn tier_of(self, user: u64) -> UserTier {
        spec_user_tier(self.trade_count(user), self.volume(user))
    }

    /// Pool reserve of an asset: XLM, the pool's USDC, or 0 for others.
    pub open spec fn liquidity(self, asset: AssetId) -> i128 {
        match asset {
            AssetId::Xlm => self.xlm_in_pool,
            AssetId::Custom(s) => if s == usdcsim_chars() { self.usdc_in_pool } else { 0 },
        }
    }
}

/// The state of a ledger that has recorded nothing.
pub open spec fn empty_portfolio() -> PortfolioView {
    PortfolioView {
        balances: Map::empty(),
        trades: Map::empty(),
        user_volumes: Map::empty(),
        pnl: Map::empty(),
        badges: Map::empty(),
        tiers: Map::empty(),
        metrics: Metrics { trades_executed: 0, failed_orders: 0, balances_updated: 0 },
        total_users: 0,
        total_trading_volume: 0,
        active_users: Seq::empty(),
        top_traders: Seq::empty(),
        xlm_in_pool: 0,
        usdc_in_pool: 0,
        total_fees_collected: 0,
        initial_balances: Map::empty(),
        token_pairs_traded: Map::empty(),
        ledger_heights_traded: Map::empty(),
        lp_deposits_count: Map::empty(),
        transactions: Map::empty(),
        lp_positions: Map::empty(),
        total_lp_tokens: 0,
        lp_fees_accumulated: 0,
        migration_time: None,
    }
}

/// Metrics with `n` more balance updates, saturating.
pub open spec fn bump_balances_updated(m: Metrics, n: u32) -> Metrics {
    Metrics {
        balances_updated: if m.balances_updated + n > u32::MAX { u32::MAX } else { (m.balances_updated + n) as u32 },
        ..m
    }
}

/// `c + 1`, saturating at `u32::MAX`.
pub open spec fn sat_inc(c: u32) -> u32 {
    if c == u32::MAX { u32::MAX } else { (c + 1) as u32 }
}

/// The portfolio ledger.
pub struct Portfolio {
    balances: KeyedList<(u64, Asset), i128>,
    trades: KeyedList<u64, u32>,
    user_volumes: KeyedList<u64, i128>,
    pnl: KeyedList<u64, i128>,
    badges: KeyedList<(u64, Badge), bool>,
    tiers: KeyedList<u64, UserTier>,
    metrics: Metrics,
    total_users: u32,
    total_trading_volume: i128,
    active_users: Vec<u64>,
    top_traders: Vec<(u64, i128)>,
    xlm_in_pool: i128,
    usdc_in_pool: i128,
    total_fees_collected: i128,
    initial_balances: KeyedList<u64, i128>,
    token_pairs_traded: KeyedList<u64, Vec<(String, String)>>,
    ledger_heights_traded: KeyedList<u64, Vec<u64>>,
    lp_deposits_count: KeyedList<u64, u32>,
    transactions: KeyedList<u64, Vec<Transaction>>,
    lp_positions: KeyedList<u64, LPPosition>,
    total_lp_tokens: i128,
    lp_fees_accumulated: i128,
    migration_time: Option<u64>,
}

impl View for Portfolio {
    type V = PortfolioView;

    closed spec fn view(&self) -> PortfolioView {
        PortfolioView {
            balances: self.balances@,
            trades: self.trades@,
            user_volumes: self.user_volumes@,
            pnl: self.pnl@,
            badges: self.badges@,
            tiers: self.tiers@,
            metrics: self.metrics,
            total_users: self.total_users,
            total_trading_volume: self.total_trading_volume,
            active_users: self.active_users@,
            top_traders: self.top_traders@,
            xlm_in_pool: self.xlm_in_pool,
            usdc_in_pool: self.usdc_in_pool,
            total_fees_collected: self.total_fees_collected,
            initial_balances: self.initial_balances@,
            token_pairs_traded: self.token_pairs_traded@,
            ledger_heights_traded: self.ledger_heights_traded@,
            lp_deposits_count: self.lp_deposits_count@,
            transactions: self.transactions@,
            lp_positions: self.lp_positions@,
            total_lp_tokens: self.total_lp_tokens,
            lp_fees_accumulated: self.lp_fees_accumulated,
            migration_time: self.migration_time,
        }
    }
}

impl Portfolio {
    /// An empty portfolio.
    pub fn new() -> (p: Portfolio)
        ensures
            p@.balances == Map::<(u64, AssetId), i128>::empty(),
            p@.trades == Map::<u64, u32>::empty(),
            p@.user_volumes == Map::<u64, i128>::empty(),
            p@.pnl == Map::<u64, i128>::empty(),
            p@.badges == Map::<(u64, Badge), bool>::empty(),
            p@.tiers == Map::<u64, UserTier>::empty(),
            p@.metrics == (Metrics { trades_executed: 0, failed_orders: 0, balances_updated: 0 }),
            p@.total_users == 0,
            p@.total_trading_volume == 0,
            p@.active_users == Seq::<u64>::empty(),
            p@.top_traders == Seq::<(u64, i128)>::empty(),
            board_ok(p@.top_traders),
            p@.xlm_in_pool == 0,
            p@.usdc_in_pool == 0,
            p@.total_fees_collected == 0,
            p@.initial_balances == Map::<u64, i128>::empty(),
            p@.token_pairs_traded == Map::<u64, Seq<(String, String)>>::empty(),
            p@.ledger_heights_traded == Map::<u64, Seq<u64>>::empty(),
            p@.lp_deposits_count == Map::<u64, u32>::empty(),
            p@.transactions == Map::<u64, Seq<Transaction>>::empty(),
            p@.lp_positions == Map::<u64, LPPosition>::empty(),
            p@.total_lp_tokens == 0,
            p@.lp_fees_accumulated == 0,
            p@.migration_time == None::<u64>,
            p@ == empty_portfolio(),
    {
        Portfolio {
            balances: KeyedList::new(),
            trades: KeyedList::new(),
            user_volumes: KeyedList::new(),
            pnl: KeyedList::new(),
            badges: KeyedList::new(),
            tiers: KeyedList::new(),
            metrics: Metrics::zero(),
            total_users: 0,
            total_trading_volume: 0,
            active_users: Vec::new(),
            top_traders: Vec::new(),
            xlm_in_pool: 0,
            usdc_in_pool: 0,
            total_fees_collected: 0,
            initial_balances: KeyedList::new(),
            token_pairs_traded: KeyedList::new(),
            ledger_heights_traded: KeyedList::new(),
            lp_deposits_count: KeyedList::new(),
            transactions: KeyedList::new(),
            lp_positions: KeyedList::new(),
            total_lp_tokens: 0,
            lp_fees_accumulated: 0,
            migration_time: None,
        }
    }

    /// Balance of `token` for `user`; 0 when none exists.
    pub fn balance_of(&self, token: &Asset, user: u64) -> (b: i128)
        ensures
            b == self@.balance(user, token@),
    {
        let key = (user, token.copy_asset());
        match self.balances.get(&key) {
            Some(v) => *v,
            None => 0,
        }
    }

    /// Profit-and-loss of `user`; 0 when none.
    fn pnl_of(&self, user: u64) -> (v: i128)
        ensures
            v == self@.user_pnl(user),
    {
        match self.pnl.get(&user) {
            Some(v) => *v,
            None => 0,
        }
    }

    /// Trade count of `user`; 0 when none.
    fn trades_of(&self, user: u64) -> (v: u32)
        ensures
            v == self@.trade_count(user),
    {
        match self.trades.get(&user) {
            Some(v) => *v,
            None => 0,
        }
    }

    /// Volume of `user`; 0 when none.
    fn volume_of(&self, user: u64) -> (v: i128)
        ensures
            v == self@.volume(user),
    {
        match self.user_volumes.get(&user) {
            Some(v) => *v,
            None => 0,
        }
    }

    /// Debit `amount` of `token` from `from`: the balance and the PnL (which
    /// saturates) go down by `amount`, and one balance update is counted.
    /// The amount must be positive and covered by the balance.
    pub fn debit(&mut self, token: &Asset, from: u64, amount: i128)
        requires
            amount > 0,
            old(self)@.balance(from, token@) >= amount,
        ensures
            final(self)@ == (PortfolioView {
                balances: old(self)@.balances.insert((from, token@), (old(self)@.balance(from, token@) - amount) as i128),
                pnl: old(self)@.pnl.insert(from, clamp_i128(old(self)@.user_pnl(from) - amount) as i128),
                metrics: bump_balances_updated(old(self)@.metrics, 1),
                ..old(self)@
            }),
    {
        let current = self.balance_of(token, from);
        self.balances.set((from, token.copy_asset()), current - amount);
        let current_pnl = self.pnl_of(from);
        self.pnl.set(from, sat_sub_i128(current_pnl, amount));
        self.metrics.balances_updated = self.metrics.balances_updated.saturating_add(1);
    }

    /// Credit `amount` of `token` to `to`: the balance and the PnL (which
    /// saturates) go up by `amount`, and one balance update is counted. The
    /// amount must be non-negative and the new balance must fit.
    pub fn credit(&mut self, token: &Asset, to: u64, amount: i128)
        requires
            amount >= 0,
            old(self)@.balance(to, token@) + amount <= i128::MAX,
        ensures
            final(self)@ == (PortfolioView {
                balances: old(self)@.balances.insert((to, token@), (old(self)@.balance(to, token@) + amount) as i128),
                pnl: old(self)@.pnl.insert(to, clamp_i128(old(self)@.user_pnl(to) + amount) as i128),
                metrics: bump_balances_updated(old(self)@.metrics, 1),
                ..old(self)@
            }),
    {
        let current = self.balance_of(token, to);
        self.balances.set((to, token.copy_asset()), current + amount);
        let current_pnl = self.pnl_of(to);
        self.pnl.set(to, sat_add_i128(current_pnl, amount));
        self.metrics.balances_updated = self.metrics.balances_updated.saturating_add(1);
    }

    /// Move `amount` of `user`'s balance from one asset to another; two
    /// balance updates are counted. The amount must be positive, covered by
    /// the source balance, and the credited balance must fit.
    pub fn transfer_asset(&mut self, from_token: &Asset, to_token: &Asset, user: u64, amount: i128)
        requires
            amount > 0,
            old(self)@.balance(user, from_token@) >= amount,
            from_token@ != to_token@ ==> old(self)@.balance(user, to_token@) + amount <= i128::MAX,
        ensures
            ({
                let mid = old(self)@.balances.insert((user, from_token@), (old(self)@.balance(user, from_token@) - amount) as i128);
                final(self)@ == (PortfolioView {
                    balances: mid.insert((user, to_token@), (get_or(mid, (user, to_token@), 0i128) + amount) as i128),
                    metrics: bump_balances_updated(old(self)@.metrics, 2),
                    ..old(self)@
                })
            }),
    {
        let from_balance = self.balance_of(from_token, user);
        self.balances.set((user, from_token.copy_asset()), from_balance - amount);
        let to_balance = self.balance_of(to_token, user);
        self.balances.set((user, to_token.copy_asset()), to_balance + amount);
        self.metrics.balances_updated = self.metrics.balances_updated.saturating_add(2);
    }

    /// Whether `user` has earned `badge`.
    pub fn has_badge(&self, user: u64, badge: Badge) -> (r: bool)
        ensures
            r == self@.holds_badge(user, badge),
    {
        match self.badges.get(&(user, badge)) {
            Some(b) => *b,
            None => false,
        }
    }

    /// Award `badge` to `user` unless already held; returns whether it was
    /// newly awarded.
    pub fn award_badge(&mut self, user: u64, badge: Badge) -> (awarded: bool)
        ensures
            awarded == !old(self)@.holds_badge(user, badge),
            awarded ==> final(self)@ == (PortfolioView {
                badges: old(self)@.badges.insert((user, badge), true),
                ..old(self)@
            }),
            !awarded ==> final(self)@ == old(self)@,
            final(self)@.holds_badge(user, badge),
    {
        if self.has_badge(user, badge) {
            return false;
        }
        self.badges.set((user, badge), true);
        true
    }

    /// Record a trade: `user`'s trade count goes up by one, the executed
    /// trades metric (saturating) too, and a first trade earns `FirstTrade`.
    /// The count must not be at `u32::MAX`.
    pub fn record_trade(&mut self, user: u64)
        requires
            old(self)@.trade_count(user) < u32::MAX,
        ensures
            final(self)@ == spec_record_trade(old(self)@, user),
    {
        let count = self.trades_of(user);
        self.trades.set(user, count + 1);
        self.metrics.trades_executed = self.metrics.trades_executed.saturating_add(1);
        if count == 0 {
            self.award_badge(user, Badge::FirstTrade);
        }
    }

    /// Trade count and PnL of `user`.
    pub fn get_portfolio(&self, user: u64) -> (r: (u32, i128))
        ensures
            r == (self@.trade_count(user), self@.user_pnl(user)),
    {
        (self.trades_of(user), self.pnl_of(user))
    }

    /// The aggregate metrics.
    pub fn get_metrics(&self) -> (m: Metrics)
        ensures
            m == self@.metrics,
    {
        self.metrics
    }

    /// Count one more failed order (saturating).
    pub fn inc_failed_order(&mut self)
        ensures
            final(self)@ == (PortfolioView {
                metrics: Metrics { failed_orders: sat_inc(old(self)@.metrics.failed_orders), ..old(self)@.metrics },
                ..old(self)@
            }),
    {
        self.metrics.failed_orders = self.metrics.failed_orders.saturating_add(1);
    }

    /// Badges `user` holds, in the order FirstTrade, Trader, WealthBuilder,
    /// LiquidityProvider, Diversifier, Consistency.
    pub fn get_user_badges(&self, user: u64) -> (r: Vec<Badge>)
        ensures
            r@ == badges_held(self@, user),
    {
        let mut badges: Vec<Badge> = Vec::new();
        if self.has_badge(user, Badge::FirstTrade) {
            badges.push(Badge::FirstTrade);
        }
        if self.has_badge(user, Badge::Trader) {
            badges.push(Badge::Trader);
        }
        if self.has_badge(user, Badge::WealthBuilder) {
            badges.push(Badge::WealthBuilder);
        }
        if self.has_badge(user, Badge::LiquidityProvider) {
            badges.push(Badge::LiquidityProvider);
        }
        if self.has_badge(user, Badge::Diversifier) {
            badges.push(Badge::Diversifier);
        }
        if self.has_badge(user, Badge::Consistency) {
            badges.push(Badge::Consistency);
        }
        badges
    }

    /// The tier `user`'s trade count and volume earn.
    pub fn get_user_tier(&self, user: u64) -> (t: UserTier)
        ensures
            t == self@.tier_of(user),
    {
        calculate_user_tier(self.trades_of(user), self.volume_of(user))
    }

    /// Store `user`'s current tier; returns it and whether it differs from
    /// the stored one (Novice when none was stored).
    pub fn update_tier(&mut self, user: u64) -> (r: (UserTier, bool))
        ensures
            r.0 == old(self)@.tier_of(user),
            r.1 == (r.0 != get_or(old(self)@.tiers, user, UserTier::Novice)),
            final(self)@ == spec_update_tier(old(self)@, user),
    {
        let new_tier = self.get_user_tier(user);
        let old_tier = match self.tiers.get(&user) {
            Some(t) => *t,
            None => UserTier::Novice,
        };
        let changed = new_tier != old_tier;
        if changed {
            self.tiers.set(user, new_tier);
        }
        (new_tier, changed)
    }
}

/// The badges of `user`, in catalog order.
pub open spec fn badges_held(p: PortfolioView, user: u64) -> Seq<Badge> {
    let s0 = Seq::<Badge>::empty();
    let s1 = if p.holds_badge(user, Badge::FirstTrade) { s0.push(Badge::FirstTrade) } else { s0 };
    let s2 = if p.holds_badge(user, Badge::Trader) { s1.push(Badge::Trader) } else { s1 };
    let s3 = if p.holds_badge(user, Badge::WealthBuilder) { s2.push(Badge::WealthBuilder) } else { s2 };
    let s4 = if p.holds_badge(user, Badge::LiquidityProvider) { s3.push(Badge::LiquidityProvider) } else { s3 };
    let s5 = if p.holds_badge(user, Badge::Diversifier) { s4.push(Badge::Diversifier) } else { s4 };
    if p.holds_badge(user, Badge::Consistency) { s5.push(Badge::Consistency) } else { s5 }
}


/// State after recording one trade of `user`.
pub open spec fn spec_record_trade(p: PortfolioView, user: u64) -> PortfolioView {
    let counted = PortfolioView {
        trades: p.trades.insert(user, (p.trade_count(user) + 1) as u32),
        metrics: Metrics { trades_executed: sat_inc(p.metrics.trades_executed), ..p.metrics },
        ..p
    };
    if p.trade_count(user) == 0 && !p.holds_badge(user, Badge::FirstTrade) {
        PortfolioView { badges: counted.badges.insert((user, Badge::FirstTrade), true), ..counted }
    } else {
        counted
    }
}

/// State after storing `user`'s current tier when it changed.
pub open spec fn spec_update_tier(p: PortfolioView, user: u64) -> PortfolioView {
    let t = p.tier_of(user);
    if t != get_or(p.tiers, user, UserTier::Novice) {
        PortfolioView { tiers: p.tiers.insert(user, t), ..p }
    } else {
        p
    }
}

/// State after the aggregate statistics take in a trade of `amount` by
/// `user`: a user with no trades yet is counted and listed as active, and
/// the total and per-user volumes grow (saturating).
pub open spec fn spec_stats_on_trade(p: PortfolioView, user: u64, amount: i128) -> PortfolioView {
    let p1 = if p.trade_count(user) == 0 {
        PortfolioView {
            total_users: sat_inc(p.total_users),
            active_users: if p.active_users.contains(user) { p.active_users } else { p.active_users.push(user) },
            ..p
        }
    } else {
        p
    };
    PortfolioView {
        total_trading_volume: clamp_i128(p1.total_trading_volume + amount) as i128,
        user_volumes: p1.user_volumes.insert(user, clamp_i128(p1.volume(user) + amount) as i128),
        ..p1
    }
}

/// Whether `s` holds the pair `from` -> `to` (by characters).
pub open spec fn has_pair(s: Seq<(String, String)>, from: Seq<char>, to: Seq<char>) -> bool {
    exists|i: int| 0 <= i < s.len() && #[trigger] s[i].0@ == from && s[i].1@ == to
}

/// State after noting, for badges, that `user` traded `from_token` for
/// `to_token` at ledger `height`: the pair and the height are each added to
/// the user's list when new.
pub open spec fn spec_track(p: PortfolioView, user: u64, from_token: String, to_token: String, height: u64) -> PortfolioView {
    let pairs = get_or(p.token_pairs_traded, user, Seq::<(String, String)>::empty());
    let heights = get_or(p.ledger_heights_traded, user, Seq::<u64>::empty());
    PortfolioView {
        token_pairs_traded: if has_pair(pairs, from_token@, to_token@) { p.token_pairs_traded } else {
            p.token_pairs_traded.insert(user, pairs.push((from_token, to_token)))
        },
        ledger_heights_traded: if heights.contains(height) { p.ledger_heights_traded } else {
            p.ledger_heights_traded.insert(user, heights.push(height))
        },
        ..p
    }
}

/// Transaction history of `user`.
pub open spec fn history(p: PortfolioView, user: u64) -> Seq<Transaction> {
    get_or(p.transactions, user, Seq::<Transaction>::empty())
}

/// History with `tx` appended, keeping the newest 100.
pub open spec fn capped_push(h: Seq<Transaction>, tx: Transaction) -> Seq<Transaction> {
    let h2 = h.push(tx);
    if h2.len() > 100 { h2.subrange(1, h2.len() as int) } else { h2 }
}

/// Rate achieved by a swap, with 7 decimals: `to * 10^7 / from` on the
/// amounts read as `u128`, or 0 when nothing was given.
pub open spec fn spec_rate(from_amount: i128, to_amount: i128) -> u128 {
    if from_amount > 0 { ((wrap_u128(to_amount) * 10_000_000) / (from_amount as int)) as u128 } else { 0 }
}

/// State after recording a swap transaction of `user`.
pub open spec fn spec_record_transaction(
    p: PortfolioView,
    user: u64,
    tx: Transaction,
    height: u64,
) -> PortfolioView {
    let p1 = PortfolioView { transactions: p.transactions.insert(user, capped_push(history(p, user), tx)), ..p };
    let p2 = spec_record_trade(p1, user);
    let p3 = spec_stats_on_trade(p2, user, tx.from_amount);
    let p4 = spec_update_tier(p3, user);
    spec_track(p4, user, tx.from_token, tx.to_token, height)
}

/// `badge` awarded in `m` when `cond` holds.
pub open spec fn award_if(m: Map<(u64, Badge), bool>, user: u64, badge: Badge, cond: bool) -> Map<(u64, Badge), bool> {
    if cond && !get_or(m, (user, badge), false) { m.insert((user, badge), true) } else { m }
}

/// Badges earned by the state of `user`: Trader at 10+ trades, WealthBuilder
/// when the PnL reaches 10x a positive initial balance, LiquidityProvider at
/// 1+ LP deposits, Diversifier at 5+ pairs, Consistency at 7+ ledger heights.
pub open spec fn spec_award_badges(p: PortfolioView, user: u64) -> Map<(u64, Badge), bool> {
    let initial = get_or(p.initial_balances, user, 0i128);
    let m1 = award_if(p.badges, user, Badge::Trader, p.trade_count(user) >= 10);
    let m2 = award_if(m1, user, Badge::WealthBuilder, initial > 0 && p.user_pnl(user) >= initial * 10);
    let m3 = award_if(m2, user, Badge::LiquidityProvider, get_or(p.lp_deposits_count, user, 0u32) >= 1);
    let m4 = award_if(m3, user, Badge::Diversifier, get_or(p.token_pairs_traded, user, Seq::<(String, String)>::empty()).len() >= 5);
    award_if(m4, user, Badge::Consistency, get_or(p.ledger_heights_traded, user, Seq::<u64>::empty()).len() >= 7)
}

/// `a / b` rounded toward zero, for a positive `b`.
pub open spec fn trunc_div(a: int, b: int) -> int {
    if a >= 0 { a / b } else { -((-a) / b) }
}

/// Whether `v` holds `x`.
fn vec_has_u64(v: &Vec<u64>, x: u64) -> (r: bool)
    ensures
        r == v@.contains(x),
{
    let mut i: usize = 0;
    while i < v.len()
        invariant
            0 <= i <= v@.len(),
            forall|k: int| 0 <= k < i ==> #[trigger] v@[k] != x,
        decreases v@.len() - i,
    {
        if v[i] == x {
            proof {
                assert(v@[i as int] == x);
            }
            return true;
        }
        i = i + 1;
    }
    false
}

/// Whether `v` holds the pair `from` -> `to`.
fn vec_has_pair(v: &Vec<(String, String)>, from: &String, to: &String) -> (r: bool)
    ensures
        r == has_pair(v@, from@, to@),
{
    let mut i: usize = 0;
    while i < v.len()
        invariant
            0 <= i <= v@.len(),
            forall|k: int| 0 <= k < i ==> !(#[trigger] v@[k].0@ == from@ && v@[k].1@ == to@),
        decreases v@.len() - i,
    {
        if v[i].0 == *from && v[i].1 == *to {
            proof {
                assert(v@[i as int].0@ == from@ && v@[i as int].1@ == to@);
            }
            return true;
        }
        i = i + 1;
    }
    false
}

impl Portfolio {
    /// Mint `amount` of `token` to `to`: balance and PnL grow by `amount`,
    /// the leaderboard records the new PnL and is re-sorted, and one balance
    /// update is counted. The amount must be non-negative and the new balance
    /// and PnL must fit.
    pub fn mint(&mut self, token: &Asset, to: u64, amount: i128)
        requires
            amount >= 0,
            old(self)@.balance(to, token@) + amount <= i128::MAX,
            old(self)@.user_pnl(to) + amount <= i128::MAX,
        ensures
            final(self)@ == minted_view(old(self)@, token@, to, amount),
            board_ok(old(self)@.top_traders) ==> board_ok(final(self)@.top_traders),
            sorted_desc(final(self)@.top_traders),
            final(self)@.top_traders.to_multiset()
                == board_with(old(self)@.top_traders, to, (old(self)@.user_pnl(to) + amount) as i128).to_multiset(),
            final(self)@.top_traders.len()
                == board_with(old(self)@.top_traders, to, (old(self)@.user_pnl(to) + amount) as i128).len(),
    {
        let current = self.balance_of(token, to);
        self.balances.set((to, token.copy_asset()), current + amount);
        let current_pnl = self.pnl_of(to);
        let new_pnl = current_pnl + amount;
        self.pnl.set(to, new_pnl);
        update_board(&mut self.top_traders, to, new_pnl);
        self.metrics.balances_updated = self.metrics.balances_updated.saturating_add(1);
        proof {
            if board_ok(old(self)@.top_traders) {
                crate::leaderboard::lemma_board_ok_kept(old(self)@.top_traders, to, new_pnl);
            }
        }
    }

    /// Aggregate statistics take in a trade of `swap_amount` by `user`.
    fn update_stats_on_trade(&mut self, user: u64, swap_amount: i128)
        ensures
            final(self)@ == spec_stats_on_trade(old(self)@, user, swap_amount),
    {
        let trade_count = self.trades_of(user);
        if trade_count == 0 {
            self.total_users = self.total_users.saturating_add(1);
            let is_active = vec_has_u64(&self.active_users, user);
            if !is_active {
                self.active_users.push(user);
            }
        }
        self.total_trading_volume = sat_add_i128(self.total_trading_volume, swap_amount);
        let current_user_volume = self.volume_of(user);
        self.user_volumes.set(user, sat_add_i128(current_user_volume, swap_amount));
    }

    /// Note `from_token` and the ledger `height` of a trade for badges.
    pub fn track_trade_for_badges(&mut self, user: u64, from_token: &String, to_token: &String, ledger_height: u64)
        ensures
            final(self)@ == spec_track(old(self)@, user, *from_token, *to_token, ledger_height),
    {
        let ghost p0 = self@;
        let mut pairs: Vec<(String, String)> = match self.token_pairs_traded.get(&user) {
            Some(v) => v.dup(),
            None => Vec::new(),
        };
        let is_new_pair = !vec_has_pair(&pairs, from_token, to_token);
        if is_new_pair {
            pairs.push((from_token.clone(), to_token.clone()));
            self.token_pairs_traded.set(user, pairs);
        }
        let mut heights: Vec<u64> = match self.ledger_heights_traded.get(&user) {
            Some(v) => v.dup(),
            None => Vec::new(),
        };
        let is_new_height = !vec_has_u64(&heights, ledger_height);
        if is_new_height {
            heights.push(ledger_height);
            self.ledger_heights_traded.set(user, heights);
        }
    }

    /// Record a swap with its details at time `now` and ledger `sequence`:
    /// the transaction joins the history (newest 100 kept), the trade is
    /// counted, statistics and tier are updated and badge tracking notes the
    /// pair and ledger. The rate product must fit in a `u128` and the trade
    /// count must not be at `u32::MAX`.
    pub fn record_transaction(
        &mut self,
        user: u64,
        from_token: &String,
        to_token: &String,
        from_amount: i128,
        to_amount: i128,
        now: u64,
        sequence: u32,
    )
        requires
            from_amount > 0 ==> wrap_u128(to_amount) * 10_000_000 <= u128::MAX,
            old(self)@.trade_count(user) < u32::MAX,
        ensures
            final(self)@ == spec_record_transaction(
                old(self)@,
                user,
                Transaction {
                    timestamp: now,
                    from_token: *from_token,
                    to_token: *to_token,
                    from_amount,
                    to_amount,
                    rate_achieved: spec_rate(from_amount, to_amount),
                },
                sequence as u64,
            ),
    {
        let rate: u128 = if from_amount > 0 {
            (to_u128_bits(to_amount) * 10_000_000) / (from_amount as u128)
        } else {
            0
        };
        let tx = Transaction {
            timestamp: now,
            from_token: from_token.clone(),
            to_token: to_token.clone(),
            from_amount,
            to_amount,
            rate_achieved: rate,
        };
        let mut user_txs: Vec<Transaction> = match self.transactions.get(&user) {
            Some(v) => v.dup(),
            None => Vec::new(),
        };
        user_txs.push(tx);
        if user_txs.len() > 100 {
            user_txs.remove(0);
        }
        proof {
            assert(user_txs@ =~= capped_push(history(old(self)@, user), user_txs@.last())) by {
                let h2 = history(old(self)@, user).push(user_txs@.last());
                if h2.len() > 100 {
                    assert(user_txs@ =~= h2.subrange(1, h2.len() as int));
                }
            }
        }
        self.transactions.set(user, user_txs);
        self.record_trade(user);
        self.update_stats_on_trade(user, from_amount);
        self.update_tier(user);
        self.track_trade_for_badges(user, from_token, to_token, sequence as u64);
    }

    /// Record a 1:1 swap of `swap_amount` from XLM to USDC.
    pub fn record_trade_with_amount(&mut self, user: u64, swap_amount: i128, now: u64, sequence: u32)
        requires
            swap_amount > 0 ==> wrap_u128(swap_amount) * 10_000_000 <= u128::MAX,
            old(self)@.trade_count(user) < u32::MAX,
        ensures
            exists|xlm: String, usdc: String| xlm@ == crate::symbols::xlm_chars() && usdc@ == crate::symbols::usdc_chars()
                && final(self)@ == spec_record_transaction(
                old(self)@,
                user,
                Transaction {
                    timestamp: now,
                    from_token: xlm,
                    to_token: usdc,
                    from_amount: swap_amount,
                    to_amount: swap_amount,
                    rate_achieved: spec_rate(swap_amount, swap_amount),
                },
                sequence as u64,
            ),
    {
        let xlm = xlm_symbol();
        let usdc = usdc_symbol();
        self.record_transaction(user, &xlm, &usdc, swap_amount, swap_amount, now, sequence);
    }

    /// Award every badge whose condition `user` now meets. A positive
    /// initial balance times 10 must fit in an `i128`.
    pub fn check_and_award_badges(&mut self, user: u64)
        requires
            get_or(old(self)@.initial_balances, user, 0i128) > 0 ==> get_or(old(self)@.initial_balances, user, 0i128) * 10 <= i128::MAX,
        ensures
            final(self)@ == (PortfolioView { badges: spec_award_badges(old(self)@, user), ..old(self)@ }),
    {
        let trades = self.trades_of(user);
        if trades >= 10 {
            self.award_badge(user, Badge::Trader);
        }
        let current_balance = self.pnl_of(user);
        let initial_balance = match self.initial_balances.get(&user) {
            Some(v) => *v,
            None => 0,
        };
        if initial_balance > 0 && current_balance >= initial_balance * 10 {
            self.award_badge(user, Badge::WealthBuilder);
        }
        let lp_deposits = match self.lp_deposits_count.get(&user) {
            Some(v) => *v,
            None => 0,
        };
        if lp_deposits >= 1 {
            self.award_badge(user, Badge::LiquidityProvider);
        }
        let pairs_len = match self.token_pairs_traded.get(&user) {
            Some(v) => v.len(),
            None => 0,
        };
        if pairs_len >= 5 {
            self.award_badge(user, Badge::Diversifier);
        }
        let heights_len = match self.ledger_heights_traded.get(&user) {
            Some(v) => v.len(),
            None => 0,
        };
        if heights_len >= 7 {
            self.award_badge(user, Badge::Consistency);
        }
    }

    /// Starting balance recorded for `user`; 0 when none.
    pub fn initial_balance_of(&self, user: u64) -> (v: i128)
        ensures
            v == get_or(self@.initial_balances, user, 0i128),
    {
        match self.initial_balances.get(&user) {
            Some(v) => *v,
            None => 0,
        }
    }

    /// Count one more LP deposit of `user` (saturating).
    pub fn record_lp_deposit(&mut self, user: u64)
        ensures
            final(self)@ == (PortfolioView {
                lp_deposits_count: old(self)@.lp_deposits_count.insert(user, sat_inc(get_or(old(self)@.lp_deposits_count, user, 0u32))),
                ..old(self)@
            }),
    {
        let count = match self.lp_deposits_count.get(&user) {
            Some(v) => *v,
            None => 0,
        };
        self.lp_deposits_count.set(user, count.saturating_add(1));
    }

    /// Record `user`'s starting balance for WealthBuilder, once, and only a
    /// positive one.
    pub fn record_initial_balance(&mut self, user: u64, amount: i128)
        ensures
            !old(self)@.initial_balances.contains_key(user) && amount > 0 ==> final(self)@ == (PortfolioView {
                initial_balances: old(self)@.initial_balances.insert(user, amount),
                ..old(self)@
            }),
            !(!old(self)@.initial_balances.contains_key(user) && amount > 0) ==> final(self)@ == old(self)@,
    {
        if !self.initial_balances.contains_key(&user) && amount > 0 {
            self.initial_balances.set(user, amount);
        }
    }

    /// Progress of `user` toward each badge as `(badge, current, target)`:
    /// trades toward FirstTrade (1) and Trader (10), the PnL multiple of the
    /// initial balance toward WealthBuilder (10), LP deposits toward
    /// LiquidityProvider (1), pairs toward Diversifier (5) and ledger heights
    /// toward Consistency (7).
    pub fn get_badge_progress(&self, user: u64) -> (r: Vec<(Badge, u32, u32)>)
        ensures
            ({
                let p = self@;
                let trades = p.trade_count(user);
                let initial = get_or(p.initial_balances, user, 1i128);
                let mult = if initial > 0 { trunc_div(p.user_pnl(user) as int, initial as int) as u32 } else { 0u32 };
                r@ == seq![
                    (Badge::FirstTrade, trades, 1u32),
                    (Badge::Trader, trades, 10u32),
                    (Badge::WealthBuilder, mult, 10u32),
                    (Badge::LiquidityProvider, get_or(p.lp_deposits_count, user, 0u32), 1u32),
                    (Badge::Diversifier, get_or(p.token_pairs_traded, user, Seq::<(String, String)>::empty()).len() as u32, 5u32),
                    (Badge::Consistency, get_or(p.ledger_heights_traded, user, Seq::<u64>::empty()).len() as u32, 7u32)
                ]
            }),
    {
        let mut progress: Vec<(Badge, u32, u32)> = Vec::new();
        let trades = self.trades_of(user);
        progress.push((Badge::FirstTrade, trades, 1));
        progress.push((Badge::Trader, trades, 10));
        let current_balance = self.pnl_of(user);
        let initial_balance = match self.initial_balances.get(&user) {
            Some(v) => *v,
            None => 1,
        };
        let wealth_multiplier: u32 = if initial_balance > 0 {
            (current_balance / initial_balance) as u32
        } else {
            0
        };
        progress.push((Badge::WealthBuilder, wealth_multiplier, 10));
        let lp_deposits = match self.lp_deposits_count.get(&user) {
            Some(v) => *v,
            None => 0,
        };
        progress.push((Badge::LiquidityProvider, lp_deposits, 1));
        let pairs_len = match self.token_pairs_traded.get(&user) {
            Some(v) => v.len(),
            None => 0,
        };
        progress.push((Badge::Diversifier, pairs_len as u32, 5));
        let heights_len = match self.ledger_heights_traded.get(&user) {
            Some(v) => v.len(),
            None => 0,
        };
        progress.push((Badge::Consistency, heights_len as u32, 7));
        progress
    }
}

/// The portfolio after minting `amount` of `token` to `to`: balance and PnL
/// grow by the amount, the leaderboard records the new PnL and is
/// re-sorted, and one balance update is counted.
pub open spec fn minted_view(p: PortfolioView, token: AssetId, to: u64, amount: i128) -> PortfolioView {
    PortfolioView {
        balances: p.balances.insert((to, token), (p.balance(to, token) + amount) as i128),
        pnl: p.pnl.insert(to, (p.user_pnl(to) + amount) as i128),
        metrics: bump_balances_updated(p.metrics, 1),
        top_traders: stable_desc(board_with(p.top_traders, to, (p.user_pnl(to) + amount) as i128)),
        ..p
    }
}

/// The portfolio after the mints of `mints`, in order, each a token, a
/// recipient and an amount.
pub open spec fn after_mints(p: PortfolioView, mints: Seq<(AssetId, u64, i128)>) -> PortfolioView
    decreases mints.len(),
{
    if mints.len() == 0 {
        p
    } else {
        let m = mints.last();
        minted_view(after_mints(p, mints.drop_last()), m.0, m.1, m.2)
    }
}

/// The leaderboard stays well kept over any sequence of mints: from a board
/// that is sorted by PnL, at most 100 entries long and without a repeated
/// user (as a new portfolio's empty board is), every sequence of mints
/// leads to such a board.
pub proof fn lemma_mints_keep_board(p: PortfolioView, mints: Seq<(AssetId, u64, i128)>)
    requires
        board_ok(p.top_traders),
    ensures
        board_ok(after_mints(p, mints).top_traders),
    decreases mints.len(),
{
    if mints.len() > 0 {
        let q = after_mints(p, mints.drop_last());
        let m = mints.last();
        lemma_mints_keep_board(p, mints.drop_last());
        crate::leaderboard::lemma_board_ok_kept(q.top_traders, m.1, (q.user_pnl(m.1) + m.2) as i128);
    }
}

/// The first `n` leaderboard entries, where `n` is `limit` capped at 100 and
/// at the board's length.
pub open spec fn top_prefix(top: Seq<(u64, i128)>, limit: u32) -> Seq<(u64, i128)> {
    let actual = if limit > 100 { 100 } else { limit as int };
    let cap = if top.len() < actual { top.len() as int } else { actual };
    top.subrange(0, cap)
}

/// The newest `limit` transactions of a history (all of them when fewer).
pub open spec fn newest(h: Seq<Transaction>, limit: u32) -> Seq<Transaction> {
    if h.len() <= limit { h } else { h.subrange(h.len() - limit, h.len() as int) }
}

impl Portfolio {
    /// Number of users counted as traders.
    pub fn get_total_users(&self) -> (n: u32)
        ensures
            n == self@.total_users,
    {
        self.total_users
    }

    /// Sum of all swap amounts.
    pub fn get_total_trading_volume(&self) -> (v: i128)
        ensures
            v == self@.total_trading_volume,
    {
        self.total_trading_volume
    }

    /// Number of users listed as active.
    pub fn get_active_users_count(&self) -> (n: u32)
        ensures
            n == self@.active_users.len() as u32,
    {
        self.active_users.len() as u32
    }

    /// The top traders by PnL, at most `limit` and at most 100.
    pub fn get_top_traders(&self, limit: u32) -> (r: Vec<(u64, i128)>)
        ensures
            r@ == top_prefix(self@.top_traders, limit),
            r@.len() <= limit,
            board_ok(self@.top_traders) ==> board_ok(r@),
    {
        let max_limit = 100u32;
        let actual_limit = if limit > max_limit { max_limit } else { limit };
        let len = self.top_traders.len();
        let cap: usize = if len < actual_limit as usize { len } else { actual_limit as usize };
        let mut result: Vec<(u64, i128)> = Vec::new();
        let mut i: usize = 0;
        while i < cap
            invariant
                0 <= i <= cap,
                cap <= self.top_traders@.len(),
                result@ == self.top_traders@.subrange(0, i as int),
            decreases cap - i,
        {
            result.push(self.top_traders[i]);
            i = i + 1;
            proof {
                assert(result@ =~= self.top_traders@.subrange(0, i as int));
            }
        }
        proof {
            if board_ok(self@.top_traders) {
                crate::leaderboard::lemma_board_prefix_ok(self@.top_traders, cap as int);
            }
        }
        result
    }

    /// Pool reserves and collected fees: `(xlm, usdc, fees)`.
    pub fn get_pool_stats(&self) -> (r: (i128, i128, i128))
        ensures
            r == (self@.xlm_in_pool, self@.usdc_in_pool, self@.total_fees_collected),
    {
        (self.xlm_in_pool, self.usdc_in_pool, self.total_fees_collected)
    }

    /// The newest `limit` transactions of `user`.
    pub fn get_user_transactions(&self, user: u64, limit: u32) -> (r: Vec<Transaction>)
        ensures
            r@ == newest(history(self@, user), limit),
    {
        let txs: Vec<Transaction> = match self.transactions.get(&user) {
            Some(v) => v.dup(),
            None => Vec::new(),
        };
        if txs.len() <= limit as usize {
            txs
        } else {
            let start = txs.len() - limit as usize;
            let mut result: Vec<Transaction> = Vec::new();
            let mut i: usize = start;
            while i < txs.len()
                invariant
                    start <= i <= txs@.len(),
                    result@ == txs@.subrange(start as int, i as int),
                decreases txs@.len() - i,
            {
                result.push(txs[i].copy_tx());
                i = i + 1;
                proof {
                    assert(result@ =~= txs@.subrange(start as int, i as int));
                }
            }
            result
        }
    }

    /// Add to both pool reserves (saturating).
    pub fn add_pool_liquidity(&mut self, xlm_amount: i128, usdc_amount: i128)
        ensures
            final(self)@ == (PortfolioView {
                xlm_in_pool: clamp_i128(old(self)@.xlm_in_pool + xlm_amount) as i128,
                usdc_in_pool: clamp_i128(old(self)@.usdc_in_pool + usdc_amount) as i128,
                ..old(self)@
            }),
    {
        self.xlm_in_pool = sat_add_i128(self.xlm_in_pool, xlm_amount);
        self.usdc_in_pool = sat_add_i128(self.usdc_in_pool, usdc_amount);
    }

    /// Add to the collected fees (saturating).
    pub fn collect_fee(&mut self, fee_amount: i128)
        ensures
            final(self)@ == (PortfolioView {
                total_fees_collected: clamp_i128(old(self)@.total_fees_collected + fee_amount) as i128,
                ..old(self)@
            }),
    {
        self.total_fees_collected = sat_add_i128(self.total_fees_collected, fee_amount);
    }

    /// Set the pool reserve of XLM or of the pool's USDC; other assets have
    /// no reserve and are ignored.
    pub fn set_liquidity(&mut self, asset: &Asset, amount: i128)
        ensures
            asset@ == AssetId::Xlm ==> final(self)@ == (PortfolioView { xlm_in_pool: amount, ..old(self)@ }),
            asset@ == usdc_pool_asset() ==> final(self)@ == (PortfolioView { usdc_in_pool: amount, ..old(self)@ }),
            asset@ != AssetId::Xlm && asset@ != usdc_pool_asset() ==> final(self)@ == old(self)@,
    {
        match asset {
            Asset::XLM => {
                self.xlm_in_pool = amount;
            },
            Asset::Custom(sym) => {
                if is_usdcsim(sym) {
                    self.usdc_in_pool = amount;
                }
            },
        }
    }

    /// Pool reserve of `asset` (0 for assets without a reserve).
    pub fn get_liquidity(&self, asset: &Asset) -> (r: i128)
        ensures
            r == self@.liquidity(asset@),
    {
        match asset {
            Asset::XLM => self.xlm_in_pool,
            Asset::Custom(sym) => {
                if is_usdcsim(sym) {
                    self.usdc_in_pool
                } else {
                    0
                }
            },
        }
    }

    /// LP position of `user`, if any.
    pub fn get_lp_position(&self, user: u64) -> (r: Option<LPPosition>)
        ensures
            match r {
                Some(pos) => self@.lp_positions.contains_key(user) && pos == self@.lp_positions[user],
                None => !self@.lp_positions.contains_key(user),
            },
    {
        match self.lp_positions.get(&user) {
            Some(pos) => Some(*pos),
            None => None,
        }
    }

    /// Set `user`'s LP position.
    pub fn set_lp_position(&mut self, user: u64, position: LPPosition)
        ensures
            final(self)@ == (PortfolioView { lp_positions: old(self)@.lp_positions.insert(user, position), ..old(self)@ }),
    {
        self.lp_positions.set(user, position);
    }

    /// Total LP tokens minted.
    pub fn get_total_lp_tokens(&self) -> (r: i128)
        ensures
            r == self@.total_lp_tokens,
    {
        self.total_lp_tokens
    }

    /// Add to the LP token total (saturating).
    pub fn add_total_lp_tokens(&mut self, amount: i128)
        ensures
            final(self)@ == (PortfolioView {
                total_lp_tokens: clamp_i128(old(self)@.total_lp_tokens + amount) as i128,
                ..old(self)@
            }),
    {
        self.total_lp_tokens = sat_add_i128(self.total_lp_tokens, amount);
    }

    /// Subtract from the LP token total (saturating), never below zero.
    pub fn subtract_total_lp_tokens(&mut self, amount: i128)
        ensures
            final(self)@ == (PortfolioView {
                total_lp_tokens: if clamp_i128(old(self)@.total_lp_tokens - amount) < 0 { 0 } else {
                    clamp_i128(old(self)@.total_lp_tokens - amount) as i128
                },
                ..old(self)@
            }),
    {
        self.total_lp_tokens = sat_sub_i128(self.total_lp_tokens, amount);
        if self.total_lp_tokens < 0 {
            self.total_lp_tokens = 0;
        }
    }

    /// Add to the fees accumulated for LPs (saturating).
    pub fn add_lp_fees(&mut self, amount: i128)
        ensures
            final(self)@ == (PortfolioView {
                lp_fees_accumulated: clamp_i128(old(self)@.lp_fees_accumulated + amount) as i128,
                ..old(self)@
            }),
    {
        self.lp_fees_accumulated = sat_add_i128(self.lp_fees_accumulated, amount);
    }

    /// Fees accumulated for LPs.
    pub fn get_lp_fees_accumulated(&self) -> (r: i128)
        ensures
            r == self@.lp_fees_accumulated,
    {
        self.lp_fees_accumulated
    }

    /// All LP positions. Positions are not enumerable by user, so this is
    /// always empty; `get_lp_position` answers for one user.
    pub fn get_all_lp_positions(&self) -> (r: Vec<LPPosition>)
        ensures
            r@ == Seq::<LPPosition>::empty(),
    {
        Vec::new()
    }

    /// When the data was migrated to the current layout, if it was.
    pub fn get_migration_time(&self) -> (r: Option<u64>)
        ensures
            r == self@.migration_time,
    {
        self.migration_time
    }

    /// Record the migration time.
    pub fn set_migration_time(&mut self, t: u64)
        ensures
            final(self)@ == (PortfolioView { migration_time: Some(t), ..old(self)@ }),
    {
        self.migration_time = Some(t);
    }

    /// An exact copy of the whole portfolio.
    pub fn snapshot(&self) -> (r: Portfolio)
        ensures
            r@ == self@,
    {
        let mut top: Vec<(u64, i128)> = Vec::new();
        let mut i: usize = 0;
        while i < self.top_traders.len()
            invariant
                0 <= i <= self.top_traders@.len(),
                top@ == self.top_traders@.subrange(0, i as int),
            decreases self.top_traders@.len() - i,
        {
            top.push(self.top_traders[i]);
            i = i + 1;
            proof {
                assert(top@ =~= self.top_traders@.subrange(0, i as int));
            }
        }
        proof {
            assert(top@ =~= self.top_traders@);
        }
        Portfolio {
            balances: self.balances.dup(),
            trades: self.trades.dup(),
            user_volumes: self.user_volumes.dup(),
            pnl: self.pnl.dup(),
            badges: self.badges.dup(),
            tiers: self.tiers.dup(),
            metrics: self.metrics,
            total_users: self.total_users,
            total_trading_volume: self.total_trading_volume,
            active_users: self.active_users.dup(),
            top_traders: top,
            xlm_in_pool: self.xlm_in_pool,
            usdc_in_pool: self.usdc_in_pool,
            total_fees_collected: self.total_fees_collected,
            initial_balances: self.initial_balances.dup(),
            token_pairs_traded: self.token_pairs_traded.dup(),
            ledger_heights_traded: self.ledger_heights_traded.dup(),
            lp_deposits_count: self.lp_deposits_count.dup(),
            transactions: self.transactions.dup(),
            lp_positions: self.lp_positions.dup(),
            total_lp_tokens: self.total_lp_tokens,
            lp_fees_accumulated: self.lp_fees_accumulated,
            migration_time: self.migration_time,
        }
    }
}

} // verus!
