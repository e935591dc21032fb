//! The trading contract: its stored state (portfolio ledger, oracle prices,
//! schema version and slippage limit) and its entry points. A request that
//! the platform refuses is answered with the reason and leaves the state as
//! it was.

use vstd::prelude::*;
use crate::portfolio::{
    Portfolio, PortfolioView, Asset, AssetId, Badge, Metrics, Transaction, LPPosition,
    spec_record_trade, badges_held, empty_portfolio, spec_record_transaction, spec_rate, top_prefix, newest, history, bump_balances_updated, sat_inc,
};
use crate::leaderboard::{board_with, stable_desc};
use crate::oracle::{PriceOracle, OracleView, TokenPair};
use crate::trading::{perform_swap, spec_swap_plan, spec_apply_swap, SwapFailure, token_asset};
use crate::liquidity::{
    add_liquidity, remove_liquidity, LiquidityFailure, spec_add_liquidity_plan, spec_add_liquidity_apply,
    spec_remove_liquidity_plan,
};
use crate::batch::{
    execute_batch_atomic, execute_batch_best_effort, BatchOperation, BatchResult, BatchError, OperationResult,
};
use crate::tiers::{UserTier, tier_fee_bps, bps_fee};
use crate::symbols::{xlm_chars, usdc_dash_sim_chars, is_xlm, is_usdc_dash_sim, same_symbol};
use crate::math::{clamp_i128, wrap_u128, to_u128_bits};
use crate::referral::{ReferralSystem, ReferralView, ReferralError, spec_register_refusal, spec_register, candidate_code, MAX_CODE_ATTEMPTS};
use crate::portfolio::{get_or, capped_push, spec_stats_on_trade};
use crate::invariants::spec_contract_invariants;

verus! {

/// Schema version written by `initialize`.
pub const CONTRACT_VERSION: u32 = 1;
/// Schema version after the migration that stamps the portfolio.
pub const MIGRATED_VERSION: u32 = 2;
/// Slippage allowed when none was configured (100%).
pub const DEFAULT_MAX_SLIPPAGE_BPS: u32 = 10000;

/// Why a mint or a trade record was refused.
#[derive(Clone, Copy, Debug, PartialEq, Eq, Structural)]
pub enum StateFailure {
    /// "Amount must be non-negative".
    NegativeAmount,
    /// A balance, PnL or counter would not fit its integer type.
    ArithmeticOverflow,
}

/// The contract's stored state.
pub struct CounterContract {
    portfolio: Portfolio,
    oracle: PriceOracle,
    version: u32,
    max_slippage_bps: u32,
    referrals: ReferralSystem,
}

/// Abstract state of the contract.
pub struct ContractView {
    pub portfolio: PortfolioView,
    pub oracle: OracleView,
    pub version: u32,
    pub max_slippage_bps: u32,
    pub referrals: ReferralView,
}

impl View for CounterContract {
    type V = ContractView;

    closed spec fn view(&self) -> ContractView {
        ContractView {
            portfolio: self.portfolio@,
            oracle: self.oracle@,
            version: self.version,
            max_slippage_bps: self.max_slippage_bps,
            referrals: self.referrals@,
        }
    }
}

/// `p` with `amount` of `asset` debited from `user`.
pub open spec fn spec_debit(p: PortfolioView, asset: AssetId, user: u64, amount: i128) -> PortfolioView {
    PortfolioView {
        balances: p.balances.insert((user, asset), (p.balance(user, asset) - amount) as i128),
        pnl: p.pnl.insert(user, clamp_i128(p.user_pnl(user) - amount) as i128),
        metrics: bump_balances_updated(p.metrics, 1),
        ..p
    }
}

/// `q` is `p` after minting `amount` of `asset` to `to`: balance and PnL
/// grow by `amount`, one balance update is counted, and the leaderboard is
/// sorted and holds `to`'s new PnL as `board_with` places it.
pub open spec fn spec_minted(p: PortfolioView, q: PortfolioView, asset: AssetId, to: u64, amount: i128) -> bool {
    &&& q == (PortfolioView {
        balances: p.balances.insert((to, asset), (p.balance(to, asset) + amount) as i128),
        pnl: p.pnl.insert(to, (p.user_pnl(to) + amount) as i128),
        metrics: bump_balances_updated(p.metrics, 1),
        top_traders: stable_desc(board_with(p.top_traders, to, (p.user_pnl(to) + amount) as i128)),
        ..p
    })
}

/// Whether minting `amount` of `asset` to `to` is refused, and why.
pub open spec fn spec_mint_refusal(p: PortfolioView, asset: AssetId, to: u64, amount: i128) -> Option<StateFailure> {
    if amount < 0 {
        Some(StateFailure::NegativeAmount)
    } else if p.balance(to, asset) + amount > i128::MAX || p.user_pnl(to) + amount > i128::MAX {
        Some(StateFailure::ArithmeticOverflow)
    } else {
        None
    }
}

/// The tier fee of a swap of `amount` by `user`: `None` when
/// `amount * bps` does not fit in an `i128`.
pub open spec fn spec_tier_fee(p: PortfolioView, user: u64, amount: i128) -> Option<i128> {
    let bps = tier_fee_bps(p.tier_of(user));
    if amount * bps > i128::MAX || amount * bps < i128::MIN {
        None
    } else {
        Some(bps_fee(amount as int, bps as int) as i128)
    }
}

/// The transaction a swap of `amount` from `from` to `to` that paid out
/// `out` at time `now` records.
pub open spec fn swap_transaction(from: String, to: String, amount: i128, out: i128, now: u64) -> Transaction {
    Transaction {
        timestamp: now,
        from_token: from,
        to_token: to,
        from_amount: amount,
        to_amount: out,
        rate_achieved: spec_rate(amount, out),
    }
}

/// A swap through the contract: the user's tier fee is taken from the input
/// (debited and collected), the rest is swapped, and the swap is recorded
/// as a transaction of the whole amount at ledger `sequence`. Returns the
/// output and the new portfolio, or the refusal reason.
pub open spec fn spec_contract_swap(
    s: ContractView,
    from: String,
    to: String,
    amount: i128,
    user: u64,
    now: u64,
    sequence: u32,
) -> Result<(i128, PortfolioView), SwapFailure> {
    let p = s.portfolio;
    match spec_tier_fee(p, user, amount) {
        None => Err(SwapFailure::ArithmeticOverflow),
        Some(fee) => {
            let fa = token_asset(from@);
            if fee > 0 && p.balance(user, fa) < fee {
                Err(SwapFailure::InsufficientFunds)
            } else {
                let p1 = if fee > 0 {
                    let d = spec_debit(p, fa, user, fee);
                    PortfolioView { total_fees_collected: clamp_i128(d.total_fees_collected + fee) as i128, ..d }
                } else {
                    p
                };
                let swap_amount = (amount - fee) as i128;
                match spec_swap_plan(p1, s.oracle, from@, to@, swap_amount, user, now, s.max_slippage_bps) {
                    Err(e) => Err(e),
                    Ok(plan) => {
                        let p2 = spec_apply_swap(p1, from@, to@, swap_amount, user, plan);
                        if p2.trade_count(user) == u32::MAX || wrap_u128(plan.out) * 10_000_000 > u128::MAX {
                            Err(SwapFailure::ArithmeticOverflow)
                        } else {
                            Ok((plan.out, spec_record_transaction(p2, user, swap_transaction(from, to, amount, plan.out, now), sequence as u64)))
                        }
                    },
                }
            }
        },
    }
}

/// A token that `try_swap` accepts: `XLM` or `USDC-SIM`.
pub open spec fn try_swap_token(s: Seq<char>) -> bool {
    s == xlm_chars() || s == usdc_dash_sim_chars()
}

/// A swap without tier fee that counts malformed requests as failed orders:
/// `Ok((0, p'))` with one more failed order when a token, the pair or the
/// amount is malformed, else the swap and its trade record.
pub open spec fn spec_try_swap(
    s: ContractView,
    from: Seq<char>,
    to: Seq<char>,
    amount: i128,
    user: u64,
    now: u64,
) -> Result<(i128, PortfolioView), SwapFailure> {
    let p = s.portfolio;
    if !(try_swap_token(from) && try_swap_token(to) && from != to && amount > 0) {
        Ok((0, PortfolioView { metrics: Metrics { failed_orders: sat_inc(p.metrics.failed_orders), ..p.metrics }, ..p }))
    } else {
        match spec_swap_plan(p, s.oracle, from, to, amount, user, now, s.max_slippage_bps) {
            Err(e) => Err(e),
            Ok(plan) => {
                let p2 = spec_apply_swap(p, from, to, amount, user, plan);
                if p2.trade_count(user) == u32::MAX {
                    Err(SwapFailure::ArithmeticOverflow)
                } else {
                    Ok((plan.out, spec_record_trade(p2, user)))
                }
            },
        }
    }
}

/// The migration to the stamped schema at time `now`: nothing when already
/// migrated; otherwise the portfolio is stamped with `now` unless it already
/// carries a stamp, and the version becomes 2.
pub open spec fn spec_migrate(s: ContractView, now: u64) -> ContractView {
    if s.version >= MIGRATED_VERSION {
        s
    } else {
        let p = if s.portfolio.migration_time is None {
            PortfolioView { migration_time: Some(now), ..s.portfolio }
        } else {
            s.portfolio
        };
        ContractView { portfolio: p, version: MIGRATED_VERSION, ..s }
    }
}

/// A swap through the contract keeps the portfolio's state invariants:
/// the tier fee only adds to the collected fees, the pool swap keeps the
/// reserves non-negative, and recording the trade moves no reserve, fee,
/// LP total or user count.
pub proof fn lemma_contract_swap_keeps_invariants(
    s: ContractView,
    from: String,
    to: String,
    amount: i128,
    user: u64,
    now: u64,
    sequence: u32,
)
    requires
        spec_contract_invariants(s.portfolio),
        spec_contract_swap(s, from, to, amount, user, now, sequence) is Ok,
    ensures
        spec_contract_invariants(spec_contract_swap(s, from, to, amount, user, now, sequence).unwrap().1),
{
    let p = s.portfolio;
    let fee = spec_tier_fee(p, user, amount).unwrap();
    let fa = token_asset(from@);
    assert(0 <= fee) by {
        crate::tiers::lemma_bps_fee_between_zero_and_amount(amount as int, tier_fee_bps(p.tier_of(user)) as int);
    }
    let p1 = if fee > 0 {
        let d = spec_debit(p, fa, user, fee);
        PortfolioView { total_fees_collected: clamp_i128(d.total_fees_collected + fee) as i128, ..d }
    } else {
        p
    };
    assert(spec_contract_invariants(p1));
    let swap_amount = (amount - fee) as i128;
    let plan = spec_swap_plan(p1, s.oracle, from@, to@, swap_amount, user, now, s.max_slippage_bps).unwrap();
    crate::trading::lemma_swap_keeps_invariants(p1, s.oracle, from@, to@, swap_amount, user, now, s.max_slippage_bps);
    let p2 = spec_apply_swap(p1, from@, to@, swap_amount, user, plan);
    assert(spec_contract_invariants(p2));
    let tx = swap_transaction(from, to, amount, plan.out, now);
    let q1 = PortfolioView { transactions: p2.transactions.insert(user, capped_push(history(p2, user), tx)), ..p2 };
    let q2 = spec_record_trade(q1, user);
    assert(q2.trade_count(user) != 0);
    let q3 = spec_stats_on_trade(q2, user, tx.from_amount);
    assert(spec_contract_invariants(q3));
}

/// Migrating twice is migrating once: the second call finds the new
/// version and changes nothing, whatever its time.
pub proof fn lemma_migrate_idempotent(s: ContractView, first: u64, second: u64)
    ensures
        spec_migrate(spec_migrate(s, first), second) == spec_migrate(s, first),
{
}

/// Migration keeps every balance, and never lowers the version.
pub proof fn lemma_migrate_keeps_balances(s: ContractView, now: u64)
    ensures
        spec_migrate(s, now).portfolio.balances == s.portfolio.balances,
        spec_migrate(s, now).version >= s.version,
{
}

/// The asset a contract symbol names: `XLM` is native, any other custom.
fn contract_asset(token: &String) -> (a: Asset)
    ensures
        a@ == token_asset(token@),
{
    if is_xlm(token) {
        Asset::XLM
    } else {
        Asset::Custom(token.clone())
    }
}

/// The stored schema version of `contract` (0 before initialization).
pub fn get_stored_version(contract: &CounterContract) -> (v: u32)
    ensures
        v == contract@.version,
{
    contract.version
}

/// Bring `contract` to schema version 2 at time `now`: a contract already
/// there is left alone; otherwise the ledger's migration time is stamped
/// with `now` unless it was set, and the version becomes 2. Never fails.
pub fn migrate_from_v1_to_v2(contract: &mut CounterContract, now: u64) -> (r: Result<(), u32>)
    ensures
        r is Ok,
        final(contract)@ == spec_migrate(old(contract)@, now),
        final(contract)@.version >= old(contract)@.version,
{
    if contract.version >= MIGRATED_VERSION {
        return Ok(());
    }
    if contract.portfolio.get_migration_time().is_none() {
        contract.portfolio.set_migration_time(now);
    }
    contract.version = MIGRATED_VERSION;
    Ok(())
}

/// What an all-or-nothing batch from `s` at `now` does, as `(r, t)`: an
/// invalid batch, or one whose step fails, reports one failed operation
/// with no results and leaves the state as it was; otherwise every
/// operation ran at the contract's slippage limit, the portfolio is the
/// last state of that run, the results are the steps' results and all
/// operations count as executed.
pub open spec fn atomic_batch_outcome(s: ContractView, ops: Seq<BatchOperation>, now: u64, r: BatchResult, t: ContractView) -> bool {
    if crate::batch::spec_validate_batch(ops) is Err {
        t == s && r.operations_failed == 1 && r.operations_executed == 0 && r.results@.len() == 0
    } else {
        exists|trace: Seq<PortfolioView>, res: Seq<Result<i128, BatchError>>, k: int| {
            &&& #[trigger] crate::batch::run_prefix(s.portfolio, s.oracle, ops, now, s.max_slippage_bps, trace, res, k)
            &&& forall|i: int| 0 <= i < k - 1 ==> #[trigger] res[i] is Ok
            &&& if k == ops.len() && forall|i: int| 0 <= i < k ==> #[trigger] res[i] is Ok {
                &&& t == (ContractView { portfolio: trace.last(), ..s })
                &&& r.results@ == crate::batch::reported(res)
                &&& r.operations_executed == ops.len()
                &&& r.operations_failed == 0
            } else {
                &&& k > 0
                &&& res[k - 1] is Err
                &&& t == s
                &&& r.operations_failed == 1 && r.operations_executed == 0 && r.results@.len() == 0
            }
        }
    }
}

impl CounterContract {
    /// A freshly deployed contract: empty ledger, no prices, version 0 (not
    /// initialized) and the default slippage limit.
    pub fn new() -> (c: CounterContract)
        ensures
            c@.portfolio == empty_portfolio(),
            c@.oracle.prices.is_empty(),
            c@.oracle.tolerances.is_empty(),
            c@.version == 0,
            c@.max_slippage_bps == DEFAULT_MAX_SLIPPAGE_BPS,
            c@.referrals.codes.is_empty(),
            c@.referrals.code_owner.is_empty(),
            c@.referrals.referrals.is_empty(),
            c@.referrals.referrer_of.is_empty(),
            c@.referrals.rewards.is_empty(),
            c@.referrals.trade_counts.is_empty(),
            c@.referrals.registered.is_empty(),
    {
        CounterContract {
            portfolio: Portfolio::new(),
            oracle: PriceOracle::new(),
            version: 0,
            max_slippage_bps: DEFAULT_MAX_SLIPPAGE_BPS,
            referrals: ReferralSystem::new(),
        }
    }

    /// Record the contract version on first initialization; later calls
    /// change nothing.
    pub fn initialize(&mut self)
        ensures
            old(self)@.version == 0 ==> final(self)@ == (ContractView { version: CONTRACT_VERSION, ..old(self)@ }),
            old(self)@.version != 0 ==> final(self)@ == old(self)@,
            final(self)@.version >= old(self)@.version,
    {
        if self.version == 0 {
            self.version = CONTRACT_VERSION;
        }
    }

    /// The stored schema version (0 before initialization).
    pub fn get_contract_version(&self) -> (v: u32)
        ensures
            v == self@.version,
    {
        get_stored_version(self)
    }

    /// Migrate to the stamped schema at time `now`; idempotent. Never fails.
    pub fn migrate(&mut self, now: u64) -> (r: Result<(), u32>)
        ensures
            r is Ok,
            final(self)@ == spec_migrate(old(self)@, now),
            final(self)@.version >= old(self)@.version,
    {
        migrate_from_v1_to_v2(self, now)
    }

    /// Mint `amount` of `token` to `to`.
    pub fn mint(&mut self, token: &String, to: u64, amount: i128) -> (r: Result<(), StateFailure>)
        ensures
            match spec_mint_refusal(old(self)@.portfolio, token_asset(token@), to, amount) {
                Some(e) => r == Err::<(), StateFailure>(e) && final(self)@ == old(self)@,
                None => r is Ok
                    && spec_minted(old(self)@.portfolio, final(self)@.portfolio, token_asset(token@), to, amount)
                    && final(self)@ == (ContractView { portfolio: final(self)@.portfolio, ..old(self)@ }),
            },
    {
        let asset = contract_asset(token);
        if amount < 0 {
            return Err(StateFailure::NegativeAmount);
        }
        let balance = self.portfolio.balance_of(&asset, to);
        let pnl = self.portfolio.get_portfolio(to).1;
        if balance > i128::MAX - amount || pnl > i128::MAX - amount {
            return Err(StateFailure::ArithmeticOverflow);
        }
        self.portfolio.mint(&asset, to, amount);
        Ok(())
    }

    /// Balance of `token` held by `user`.
    pub fn balance_of(&self, token: &String, user: u64) -> (b: i128)
        ensures
            b == self@.portfolio.balance(user, token_asset(token@)),
    {
        let asset = contract_asset(token);
        self.portfolio.balance_of(&asset, user)
    }

    /// Balance of `token` held by `owner`; the same as `balance_of`.
    pub fn get_balance(&self, token: &String, owner: u64) -> (b: i128)
        ensures
            b == self@.portfolio.balance(owner, token_asset(token@)),
    {
        self.balance_of(token, owner)
    }

    /// Swap `amount` of `from` for `to` on behalf of `user` at time `now`
    /// and ledger `sequence`, paying the user's tier fee first. Returns the
    /// output amount, or the reason for refusal with the state unchanged.
    pub fn swap(&mut self, from: &String, to: &String, amount: i128, user: u64, now: u64, sequence: u32)
        -> (r: Result<i128, SwapFailure>)
        ensures
            match spec_contract_swap(old(self)@, *from, *to, amount, user, now, sequence) {
                Err(e) => r == Err::<i128, SwapFailure>(e) && final(self)@ == old(self)@,
                Ok((out, p)) => r == Ok::<i128, SwapFailure>(out)
                    && final(self)@ == (ContractView { portfolio: p, ..old(self)@ }),
            },
    {
        let tier = self.portfolio.get_user_tier(user);
        let bps = tier.effective_fee_bps() as i128;
        let fee: i128 = match amount.checked_mul(bps) {
            None => {
                return Err(SwapFailure::ArithmeticOverflow);
            },
            Some(_) => tier.calculate_fee(amount),
        };
        let fee_asset = contract_asset(from);
        if fee > 0 && self.portfolio.balance_of(&fee_asset, user) < fee {
            return Err(SwapFailure::InsufficientFunds);
        }
        let snapshot = self.portfolio.snapshot();
        if fee > 0 {
            self.portfolio.debit(&fee_asset, user, fee);
            self.portfolio.collect_fee(fee);
        }
        proof {
            crate::tiers::lemma_bps_fee_between_zero_and_amount(amount as int, tier_fee_bps(tier) as int);
        }
        let swap_amount = amount - fee;
        let out = match perform_swap(&mut self.portfolio, &self.oracle, from, to, swap_amount, user, now, self.max_slippage_bps) {
            Ok(o) => o,
            Err(e) => {
                self.portfolio = snapshot;
                return Err(e);
            },
        };
        if self.portfolio.get_portfolio(user).0 == u32::MAX || to_u128_bits(out) > u128::MAX / 10_000_000 {
            self.portfolio = snapshot;
            return Err(SwapFailure::ArithmeticOverflow);
        }
        self.portfolio.record_transaction(user, from, to, amount, out, now, sequence);
        Ok(out)
    }

    /// A swap that answers a malformed request (a token other than `XLM` or
    /// `USDC-SIM`, the same token twice, or a non-positive amount) with 0 and
    /// one more failed order; otherwise it swaps without tier fee and records
    /// the trade, or refuses with the state unchanged.
    pub fn try_swap(&mut self, from: &String, to: &String, amount: i128, user: u64, now: u64)
        -> (r: Result<i128, SwapFailure>)
        ensures
            match spec_try_swap(old(self)@, from@, to@, amount, user, now) {
                Err(e) => r == Err::<i128, SwapFailure>(e) && final(self)@ == old(self)@,
                Ok((out, p)) => r == Ok::<i128, SwapFailure>(out)
                    && final(self)@ == (ContractView { portfolio: p, ..old(self)@ }),
            },
    {
        let tokens_ok = (is_xlm(from) || is_usdc_dash_sim(from)) && (is_xlm(to) || is_usdc_dash_sim(to));
        let pair_ok = !same_symbol(from, to);
        let amount_ok = amount > 0;
        if !(tokens_ok && pair_ok && amount_ok) {
            self.portfolio.inc_failed_order();
            return Ok(0);
        }
        let snapshot = self.portfolio.snapshot();
        let out = match perform_swap(&mut self.portfolio, &self.oracle, from, to, amount, user, now, self.max_slippage_bps) {
            Ok(o) => o,
            Err(e) => {
                return Err(e);
            },
        };
        if self.portfolio.get_portfolio(user).0 == u32::MAX {
            self.portfolio = snapshot;
            return Err(SwapFailure::ArithmeticOverflow);
        }
        self.portfolio.record_trade(user);
        Ok(out)
    }

    /// Count a trade for `user`; refused when the count is at `u32::MAX`.
    pub fn record_trade(&mut self, user: u64) -> (r: Result<(), StateFailure>)
        ensures
            old(self)@.portfolio.trade_count(user) == u32::MAX ==> r == Err::<(), StateFailure>(StateFailure::ArithmeticOverflow)
                && final(self)@ == old(self)@,
            old(self)@.portfolio.trade_count(user) < u32::MAX ==> r is Ok
                && final(self)@ == (ContractView { portfolio: spec_record_trade(old(self)@.portfolio, user), ..old(self)@ }),
    {
        if self.portfolio.get_portfolio(user).0 == u32::MAX {
            return Err(StateFailure::ArithmeticOverflow);
        }
        self.portfolio.record_trade(user);
        Ok(())
    }

    /// Trade count and PnL of `user`.
    pub fn get_portfolio(&self, user: u64) -> (r: (u32, i128))
        ensures
            r == (self@.portfolio.trade_count(user), self@.portfolio.user_pnl(user)),
    {
        self.portfolio.get_portfolio(user)
    }

    /// The aggregate metrics.
    pub fn get_metrics(&self) -> (m: Metrics)
        ensures
            m == self@.portfolio.metrics,
    {
        self.portfolio.get_metrics()
    }

    /// Whether `user` holds `badge`.
    pub fn has_badge(&self, user: u64, badge: Badge) -> (r: bool)
        ensures
            r == self@.portfolio.holds_badge(user, badge),
    {
        self.portfolio.has_badge(user, badge)
    }

    /// The badges `user` holds, in catalog order.
    pub fn get_user_badges(&self, user: u64) -> (r: Vec<Badge>)
        ensures
            r@ == badges_held(self@.portfolio, user),
    {
        self.portfolio.get_user_badges(user)
    }

    /// The newest `limit` transactions of `user`.
    pub fn get_user_transactions(&self, user: u64, limit: u32) -> (r: Vec<Transaction>)
        ensures
            r@ == newest(history(self@.portfolio, user), limit),
    {
        self.portfolio.get_user_transactions(user, limit)
    }

    /// The tier `user` has earned.
    pub fn get_user_tier(&self, user: u64) -> (t: UserTier)
        ensures
            t == self@.portfolio.tier_of(user),
    {
        self.portfolio.get_user_tier(user)
    }

    /// Number of users counted as traders.
    pub fn get_total_users(&self) -> (n: u32)
        ensures
            n == self@.portfolio.total_users,
    {
        self.portfolio.get_total_users()
    }

    /// Sum of all recorded swap amounts.
    pub fn get_total_trading_volume(&self) -> (v: i128)
        ensures
            v == self@.portfolio.total_trading_volume,
    {
        self.portfolio.get_total_trading_volume()
    }

    /// Number of active users.
    pub fn get_active_users_count(&self) -> (n: u32)
        ensures
            n == self@.portfolio.active_users.len() as u32,
    {
        self.portfolio.get_active_users_count()
    }

    /// The top traders by PnL, at most `limit` and at most 100.
    pub fn get_top_traders(&self, limit: u32) -> (r: Vec<(u64, i128)>)
        ensures
            r@ == top_prefix(self@.portfolio.top_traders, limit),
            crate::leaderboard::board_ok(self@.portfolio.top_traders) ==> crate::leaderboard::board_ok(r@),
    {
        self.portfolio.get_top_traders(limit)
    }

    /// Pool reserves and collected fees: `(xlm, usdc, fees)`.
    pub fn get_pool_stats(&self) -> (r: (i128, i128, i128))
        ensures
            r == (self@.portfolio.xlm_in_pool, self@.portfolio.usdc_in_pool, self@.portfolio.total_fees_collected),
    {
        self.portfolio.get_pool_stats()
    }

    /// Set the slippage limit of swaps, in basis points.
    pub fn set_max_slippage_bps(&mut self, bps: u32)
        ensures
            final(self)@ == (ContractView { max_slippage_bps: bps, ..old(self)@ }),
    {
        self.max_slippage_bps = bps;
    }

    /// Report `price` for `pair` at time `now`; the oracle keeps it unless
    /// it is within the pair's tolerance of the stored price.
    pub fn set_price(&mut self, pair: TokenPair, price: u128, now: u64)
        ensures
            final(self)@.portfolio == old(self)@.portfolio,
            final(self)@.version == old(self)@.version,
            final(self)@.max_slippage_bps == old(self)@.max_slippage_bps,
            final(self)@.oracle.tolerances == old(self)@.oracle.tolerances,
            crate::oracle::spec_should_persist(old(self)@.oracle, pair@, price) ==> final(self)@.oracle.prices
                == old(self)@.oracle.prices.insert(pair@, crate::oracle::PriceData { price, timestamp: now }),
            !crate::oracle::spec_should_persist(old(self)@.oracle, pair@, price) ==> final(self)@.oracle.prices
                == old(self)@.oracle.prices,
    {
        self.oracle.set_stored_price(pair, price, now);
    }

    /// Run a batch all-or-nothing at time `now`. A refused batch reports one
    /// failed operation and leaves the state unchanged.
    pub fn execute_batch_atomic(&mut self, operations: &Vec<BatchOperation>, now: u64) -> (r: BatchResult)
        ensures
            final(self)@.oracle == old(self)@.oracle,
            final(self)@.version == old(self)@.version,
            final(self)@.max_slippage_bps == old(self)@.max_slippage_bps,
            atomic_batch_outcome(old(self)@, operations@, now, r, final(self)@),
    {
        let ghost s0 = self@;
        match execute_batch_atomic(&mut self.portfolio, &self.oracle, operations, now, self.max_slippage_bps) {
            Ok(res) => {
                proof {
                    let (trace, rs) = choose|trace: Seq<PortfolioView>, rs: Seq<Result<i128, BatchError>>| {
                        &&& #[trigger] crate::batch::run_prefix(s0.portfolio, s0.oracle, operations@, now, s0.max_slippage_bps, trace, rs, operations@.len() as int)
                        &&& forall|i: int| 0 <= i < rs.len() ==> #[trigger] rs[i] is Ok
                        &&& self@.portfolio == trace.last()
                        &&& res.results@ == crate::batch::reported(rs)
                        &&& res.operations_executed == operations@.len()
                        &&& res.operations_failed == 0
                    };
                    assert(crate::batch::run_prefix(s0.portfolio, s0.oracle, operations@, now, s0.max_slippage_bps, trace, rs, operations@.len() as int));
                }
                res
            },
            Err(_) => {
                proof {
                    if crate::batch::spec_validate_batch(operations@) is Ok {
                        let (trace, rs, k) = choose|trace: Seq<PortfolioView>, rs: Seq<Result<i128, BatchError>>, k: int| {
                            &&& #[trigger] crate::batch::run_prefix(s0.portfolio, s0.oracle, operations@, now, s0.max_slippage_bps, trace, rs, k)
                            &&& k > 0
                            &&& forall|i: int| 0 <= i < k - 1 ==> #[trigger] rs[i] is Ok
                            &&& rs[k - 1] is Err
                        };
                        assert(crate::batch::run_prefix(s0.portfolio, s0.oracle, operations@, now, s0.max_slippage_bps, trace, rs, k));
                        assert(rs[k - 1] is Err);
                    }
                }
                let mut err = BatchResult::new();
                err.operations_failed = 1;
                err
            },
        }
    }

    /// Run a batch best-effort at time `now`, each operation tried in turn
    /// and a failing one recorded and skipped. An invalid batch, or one a
    /// step aborts, reports one failed operation and changes nothing.
    pub fn execute_batch_best_effort(&mut self, operations: &Vec<BatchOperation>, now: u64) -> (r: BatchResult)
        ensures
            final(self)@.oracle == old(self)@.oracle,
            final(self)@.version == old(self)@.version,
            final(self)@.max_slippage_bps == old(self)@.max_slippage_bps,
            crate::batch::spec_validate_batch(operations@) is Err ==> final(self)@ == old(self)@
                && r.operations_failed == 1 && r.operations_executed == 0 && r.results@.len() == 0,
            crate::batch::spec_validate_batch(operations@) is Ok ==> exists|trace: Seq<PortfolioView>, res: Seq<Result<i128, BatchError>>, k: int| {
                &&& #[trigger] crate::batch::run_prefix(old(self)@.portfolio, old(self)@.oracle, operations@, now, old(self)@.max_slippage_bps, trace, res, k)
                &&& forall|i: int| 0 <= i < k - 1 ==> !crate::batch::is_revert(#[trigger] res[i])
                &&& if k == operations@.len() && forall|i: int| 0 <= i < k ==> !crate::batch::is_revert(#[trigger] res[i]) {
                    &&& final(self)@ == (ContractView { portfolio: trace.last(), ..old(self)@ })
                    &&& r.results@ == crate::batch::reported(res)
                    &&& r.operations_executed == crate::batch::count_ok(res)
                    &&& r.operations_executed + r.operations_failed == operations@.len()
                } else {
                    &&& k > 0
                    &&& crate::batch::is_revert(res[k - 1])
                    &&& final(self)@ == old(self)@
                    &&& r.operations_failed == 1 && r.operations_executed == 0 && r.results@.len() == 0
                }
            },
    {
        let ghost s0 = self@;
        match execute_batch_best_effort(&mut self.portfolio, &self.oracle, operations, now, self.max_slippage_bps) {
            Ok(res) => {
                proof {
                    let (trace, rs) = choose|trace: Seq<PortfolioView>, rs: Seq<Result<i128, BatchError>>| {
                        &&& #[trigger] crate::batch::run_prefix(s0.portfolio, s0.oracle, operations@, now, s0.max_slippage_bps, trace, rs, operations@.len() as int)
                        &&& forall|i: int| 0 <= i < rs.len() ==> !crate::batch::is_revert(#[trigger] rs[i])
                        &&& self@.portfolio == trace.last()
                        &&& res.results@ == crate::batch::reported(rs)
                        &&& res.operations_executed == crate::batch::count_ok(rs)
                        &&& res.operations_executed + res.operations_failed == operations@.len()
                    };
                    assert(crate::batch::run_prefix(s0.portfolio, s0.oracle, operations@, now, s0.max_slippage_bps, trace, rs, operations@.len() as int));
                }
                res
            },
            Err(_) => {
                proof {
                    if crate::batch::spec_validate_batch(operations@) is Ok {
                        let (trace, rs, k) = choose|trace: Seq<PortfolioView>, rs: Seq<Result<i128, BatchError>>, k: int| {
                            &&& #[trigger] crate::batch::run_prefix(s0.portfolio, s0.oracle, operations@, now, s0.max_slippage_bps, trace, rs, k)
                            &&& k > 0
                            &&& forall|i: int| 0 <= i < k - 1 ==> !crate::batch::is_revert(#[trigger] rs[i])
                            &&& crate::batch::is_revert(rs[k - 1])
                        };
                        assert(crate::batch::run_prefix(s0.portfolio, s0.oracle, operations@, now, s0.max_slippage_bps, trace, rs, k));
                        assert(crate::batch::is_revert(rs[k - 1]));
                    }
                }
                let mut err = BatchResult::new();
                err.operations_failed = 1;
                err
            },
        }
    }

    /// Run a batch; the same as `execute_batch_atomic`.
    pub fn execute_batch(&mut self, operations: &Vec<BatchOperation>, now: u64) -> (r: BatchResult)
        ensures
            final(self)@.oracle == old(self)@.oracle,
            final(self)@.version == old(self)@.version,
            final(self)@.max_slippage_bps == old(self)@.max_slippage_bps,
            atomic_batch_outcome(old(self)@, operations@, now, r, final(self)@),
    {
        self.execute_batch_atomic(operations, now)
    }

    /// Deposit XLM and USDC from `user` into the pool for LP tokens.
    pub fn add_liquidity(&mut self, xlm_amount: i128, usdc_amount: i128, user: u64)
        -> (r: Result<i128, LiquidityFailure>)
        ensures
            match spec_add_liquidity_plan(old(self)@.portfolio, xlm_amount, usdc_amount, user) {
                Err(e) => r == Err::<i128, LiquidityFailure>(e) && final(self)@ == old(self)@,
                Ok(lp) => r == Ok::<i128, LiquidityFailure>(lp) && final(self)@ == (ContractView {
                    portfolio: spec_add_liquidity_apply(old(self)@.portfolio, xlm_amount, usdc_amount, user, lp),
                    ..old(self)@
                }),
            },
    {
        add_liquidity(&mut self.portfolio, xlm_amount, usdc_amount, user)
    }

    /// Burn `lp_tokens` of `user` for a share of both reserves: the
    /// reserves, position and LP total shrink, and the user is paid.
    pub fn remove_liquidity(&mut self, lp_tokens: i128, user: u64) -> (r: Result<(i128, i128), LiquidityFailure>)
        ensures
            match spec_remove_liquidity_plan(old(self)@.portfolio, lp_tokens, user) {
                Err(e) => r == Err::<(i128, i128), LiquidityFailure>(e) && final(self)@ == old(self)@,
                Ok((x, u)) => r == Ok::<(i128, i128), LiquidityFailure>((x, u)) && final(self)@ == (ContractView {
                    portfolio: crate::liquidity::spec_removed(old(self)@.portfolio, lp_tokens, user, x, u),
                    ..old(self)@
                }),
            },
    {
        remove_liquidity(&mut self.portfolio, lp_tokens, user)
    }

    /// The LP positions of `user`: the one position, or none.
    pub fn get_lp_positions(&self, user: u64) -> (r: Vec<LPPosition>)
        ensures
            self@.portfolio.lp_positions.contains_key(user) ==> r@ == seq![self@.portfolio.lp_positions[user]],
            !self@.portfolio.lp_positions.contains_key(user) ==> r@.len() == 0,
    {
        let mut result: Vec<LPPosition> = Vec::new();
        match self.portfolio.get_lp_position(user) {
            Some(pos) => {
                result.push(pos);
            },
            None => {},
        }
        result
    }
    /// The referral code of `user`, created from the ledger `sequence` when
    /// the user has none.
    pub fn generate_referral_code(&mut self, user: u64, sequence: u32) -> (r: Result<String, ReferralError>)
        ensures
            final(self)@ == (ContractView { referrals: final(self)@.referrals, ..old(self)@ }),
            old(self)@.referrals.codes.contains_key(user) ==> r is Ok && r.unwrap()@ == old(self)@.referrals.codes[user]
                && final(self)@ == old(self)@,
            !old(self)@.referrals.codes.contains_key(user) ==> match r {
                Ok(code) => {
                    &&& exists|a: nat| {
                        &&& a <= MAX_CODE_ATTEMPTS
                        &&& code@ == candidate_code(sequence, a)
                        &&& !old(self)@.referrals.candidate_taken(sequence, a)
                        &&& forall|b: nat| b < a ==> #[trigger] old(self)@.referrals.candidate_taken(sequence, b)
                    }
                    &&& final(self)@.referrals == (ReferralView {
                        codes: old(self)@.referrals.codes.insert(user, code@),
                        code_owner: old(self)@.referrals.code_owner.insert(code@, user),
                        ..old(self)@.referrals
                    })
                },
                Err(e) => e == ReferralError::CodeSpaceExhausted && final(self)@ == old(self)@,
            },
    {
        self.referrals.generate_referral_code(user, sequence)
    }

    /// Register `new_user` under the owner of `referral_code`; a refusal
    /// changes nothing.
    pub fn register_with_referral(&mut self, referral_code: &String, new_user: u64) -> (r: Result<(), ReferralError>)
        ensures
            match spec_register_refusal(old(self)@.referrals, referral_code@, new_user) {
                Some(e) => r == Err::<(), ReferralError>(e) && final(self)@ == old(self)@,
                None => r is Ok && final(self)@ == (ContractView {
                    referrals: spec_register(old(self)@.referrals, referral_code@, new_user),
                    ..old(self)@
                }),
            },
    {
        self.referrals.register_with_referral(referral_code, new_user)
    }

    /// The code `user` owns, or the empty string.
    pub fn get_referral_code(&self, user: u64) -> (code: String)
        ensures
            code@ == get_or(self@.referrals.codes, user, Seq::<char>::empty()),
    {
        self.referrals.get_referral_code(user)
    }

    /// The referees of `user`, in registration order.
    pub fn get_referrals(&self, user: u64) -> (r: Vec<u64>)
        ensures
            r@ == get_or(self@.referrals.referrals, user, Seq::<u64>::empty()),
    {
        self.referrals.get_referrals(user)
    }

    /// Unclaimed referral rewards of `user`.
    pub fn get_referral_rewards(&self, user: u64) -> (r: i128)
        ensures
            r == self@.referrals.reward_of(user),
    {
        self.referrals.get_referral_rewards(user)
    }

    /// Pay out `user`'s referral rewards; a positive balance is reset.
    pub fn claim_referral_rewards(&mut self, user: u64) -> (claimed: i128)
        ensures
            claimed == old(self)@.referrals.reward_of(user),
            claimed > 0 ==> final(self)@ == (ContractView {
                referrals: ReferralView { rewards: old(self)@.referrals.rewards.insert(user, 0), ..old(self)@.referrals },
                ..old(self)@
            }),
            claimed <= 0 ==> final(self)@ == old(self)@,
    {
        self.referrals.claim_referral_rewards(user)
    }
}

} // verus!
