//! Batches of up to 10 operations (swaps, liquidity changes, mints),
//! validated as a whole and then run either atomically (all or nothing) or
//! best-effort (failures are recorded and skipped). A step that would abort
//! the whole call aborts the batch and leaves the portfolio as it was.

use vstd::prelude::*;
use crate::portfolio::{Portfolio, PortfolioView, Asset, AssetId, spec_record_trade, sat_inc, get_or, bump_balances_updated};
use crate::oracle::{PriceOracle, OracleView};
use crate::trading::{perform_swap, SwapFailure, spec_swap_plan, spec_apply_swap, token_asset};
use crate::leaderboard::{board_with, stable_desc};
use crate::symbols::{xlm_chars, usdc_dash_sim_chars, is_xlm, is_usdc_dash_sim, same_symbol, usdc_dash_sim_symbol};
use crate::math::clamp_i128;

verus! {

/// Maximum number of operations in one batch.
pub const MAX_BATCH_SIZE: usize = 10;

/// An operation that can be batched.
pub enum BatchOperation {
    /// Swap `(from_token, to_token, amount, user)`.
    Swap(String, String, i128, u64),
    /// Add liquidity `(xlm_amount, usdc_amount, user)`.
    AddLiquidity(i128, i128, u64),
    /// Remove liquidity `(xlm_amount, usdc_amount, user)`.
    RemoveLiquidity(i128, i128, u64),
    /// Mint `(token, to, amount)`.
    MintToken(String, u64, i128),
}

/// Why a batch step aborts the whole call.
#[derive(Clone, Copy, Debug, PartialEq, Eq, Structural)]
pub enum RevertReason {
    /// The swap was refused.
    Swap(SwapFailure),
    /// An amount or counter does not fit its integer type.
    ArithmeticOverflow,
}

/// Batch and operation errors.
#[derive(Clone, Copy, Debug, PartialEq, Eq, Structural)]
pub enum BatchError {
    /// `batch_size_exceeded`: more than 10 operations.
    BatchSizeExceeded,
    /// `empty_batch`: no operations.
    EmptyBatch,
    /// `invalid_amount`: a swap amount is not positive.
    InvalidAmount,
    /// `same_token_swap`: a swap names one token twice.
    SameTokenSwap,
    /// `invalid_token`: a token is neither `XLM` nor `USDC-SIM`.
    InvalidToken,
    /// `invalid_liquidity`: a deposit amount is not positive.
    InvalidLiquidity,
    /// `negative_liquidity`: a withdrawal amount is negative.
    NegativeLiquidity,
    /// `zero_liquidity`: a withdrawal of nothing.
    ZeroLiquidity,
    /// `negative_mint`: a mint amount is negative.
    NegativeMint,
    /// `insufficient_funds`: the user's balance does not cover the step.
    InsufficientFunds,
    /// `batch_failed`: an atomic batch had a failing step.
    BatchFailed,
    /// A step aborted the call.
    Reverted(RevertReason),
}

/// Outcome of one batched operation.
#[derive(Clone, Copy, Debug, PartialEq, Eq, Structural)]
pub enum OperationResult {
    Success(i128),
    OpError(BatchError),
}

/// Results of a batch.
pub struct BatchResult {
    pub results: Vec<OperationResult>,
    pub operations_executed: u32,
    pub operations_failed: u32,
}

impl BatchResult {
    /// No results yet.
    pub fn new() -> (r: BatchResult)
        ensures
            r.results@ == Seq::<OperationResult>::empty(),
            r.operations_executed == 0,
            r.operations_failed == 0,
    {
        BatchResult { results: Vec::new(), operations_executed: 0, operations_failed: 0 }
    }
}

/// A token accepted in batches: `XLM` or `USDC-SIM`.
pub open spec fn batch_token(s: Seq<char>) -> bool {
    s == xlm_chars() || s == usdc_dash_sim_chars()
}

/// Whether a token is accepted in batches.
pub fn is_valid_token(token: &String) -> (r: bool)
    ensures
        r == batch_token(token@),
{
    is_xlm(token) || is_usdc_dash_sim(token)
}

/// The asset a batch symbol stands for: `XLM` is the native token, any
/// other symbol a custom token.
pub fn batch_symbol_to_asset(sym: &String) -> (r: Asset)
    ensures
        r@ == token_asset(sym@),
{
    if is_xlm(sym) {
        Asset::XLM
    } else {
        Asset::Custom(sym.clone())
    }
}

/// Validation of one operation.
pub open spec fn spec_validate_op(op: BatchOperation) -> Result<(), BatchError> {
    match op {
        BatchOperation::Swap(from, to, amount, _) => {
            if amount <= 0 {
                Err(BatchError::InvalidAmount)
            } else if from@ == to@ {
                Err(BatchError::SameTokenSwap)
            } else if !batch_token(from@) || !batch_token(to@) {
                Err(BatchError::InvalidToken)
            } else {
                Ok(())
            }
        },
        BatchOperation::AddLiquidity(x, u, _) => {
            if x <= 0 || u <= 0 { Err(BatchError::InvalidLiquidity) } else { Ok(()) }
        },
        BatchOperation::RemoveLiquidity(x, u, _) => {
            if x < 0 || u < 0 {
                Err(BatchError::NegativeLiquidity)
            } else if x == 0 && u == 0 {
                Err(BatchError::ZeroLiquidity)
            } else {
                Ok(())
            }
        },
        BatchOperation::MintToken(token, _, amount) => {
            if amount < 0 {
                Err(BatchError::NegativeMint)
            } else if !batch_token(token@) {
                Err(BatchError::InvalidToken)
            } else {
                Ok(())
            }
        },
    }
}

/// The error of the first invalid operation among the first `n`.
pub open spec fn first_invalid(ops: Seq<BatchOperation>, n: int) -> Option<BatchError>
    decreases n,
{
    if n <= 0 {
        None
    } else {
        match first_invalid(ops, n - 1) {
            Some(e) => Some(e),
            None => match spec_validate_op(ops[n - 1]) {
                Err(e) => Some(e),
                Ok(_) => None,
            },
        }
    }
}

/// Validation of a batch: at most 10 operations, at least one, and every
/// operation valid (the first invalid one is reported).
pub open spec fn spec_validate_batch(ops: Seq<BatchOperation>) -> Result<(), BatchError> {
    if ops.len() > 10 {
        Err(BatchError::BatchSizeExceeded)
    } else if ops.len() == 0 {
        Err(BatchError::EmptyBatch)
    } else {
        match first_invalid(ops, ops.len() as int) {
            Some(e) => Err(e),
            None => Ok(()),
        }
    }
}

/// Validate one operation.
fn validate_operation(operation: &BatchOperation) -> (r: Result<(), BatchError>)
    ensures
        r == spec_validate_op(*operation),
{
    match operation {
        BatchOperation::Swap(from, to, amount, _user) => {
            if *amount <= 0 {
                return Err(BatchError::InvalidAmount);
            }
            if same_symbol(from, to) {
                return Err(BatchError::SameTokenSwap);
            }
            if !is_valid_token(from) || !is_valid_token(to) {
                return Err(BatchError::InvalidToken);
            }
            Ok(())
        },
        BatchOperation::AddLiquidity(xlm_amount, usdc_amount, _user) => {
            if *xlm_amount <= 0 || *usdc_amount <= 0 {
                return Err(BatchError::InvalidLiquidity);
            }
            Ok(())
        },
        BatchOperation::RemoveLiquidity(xlm_amount, usdc_amount, _user) => {
            if *xlm_amount < 0 || *usdc_amount < 0 {
                return Err(BatchError::NegativeLiquidity);
            }
            if *xlm_amount == 0 && *usdc_amount == 0 {
                return Err(BatchError::ZeroLiquidity);
            }
            Ok(())
        },
        BatchOperation::MintToken(token, _to, amount) => {
            if *amount < 0 {
                return Err(BatchError::NegativeMint);
            }
            if !is_valid_token(token) {
                return Err(BatchError::InvalidToken);
            }
            Ok(())
        },
    }
}

/// Validate a whole batch before running it.
pub fn validate_batch(operations: &Vec<BatchOperation>) -> (r: Result<(), BatchError>)
    ensures
        r == spec_validate_batch(operations@),
{
    if operations.len() > MAX_BATCH_SIZE {
        return Err(BatchError::BatchSizeExceeded);
    }
    if operations.len() == 0 {
        return Err(BatchError::EmptyBatch);
    }
    let mut i: usize = 0;
    while i < operations.len()
        invariant
            0 <= i <= operations@.len(),
            0 < operations@.len() <= 10,
            first_invalid(operations@, i as int) is None,
        decreases operations@.len() - i,
    {
        match validate_operation(&operations[i]) {
            Ok(_) => {},
            Err(e) => {
                proof {
                    assert(first_invalid(operations@, (i + 1) as int) == Some(e));
                    lemma_first_invalid_stays(operations@, (i + 1) as int, operations@.len() as int);
                }
                return Err(e);
            },
        }
        i = i + 1;
    }
    Ok(())
}

/// Once some operation is invalid, the first invalid one stays the answer.
proof fn lemma_first_invalid_stays(ops: Seq<BatchOperation>, i: int, n: int)
    requires
        0 <= i <= n,
        first_invalid(ops, i) is Some,
    ensures
        first_invalid(ops, n) == first_invalid(ops, i),
    decreases n - i,
{
    if i < n {
        lemma_first_invalid_stays(ops, i + 1, n);
    }
}

/// A mint as `Portfolio::mint` performs it: balance and PnL grow, one
/// balance update, and the leaderboard takes the new PnL and is re-sorted.
pub open spec fn mint_step(p: PortfolioView, asset: AssetId, user: u64, amount: i128, q: PortfolioView) -> bool {
    let pnl = (p.user_pnl(user) + amount) as i128;
    &&& q == (PortfolioView {
        balances: p.balances.insert((user, asset), (p.balance(user, asset) + amount) as i128),
        pnl: p.pnl.insert(user, pnl),
        metrics: bump_balances_updated(p.metrics, 1),
        top_traders: stable_desc(board_with(p.top_traders, user, pnl)),
        ..p
    })
}

/// Whether a mint of `amount` to `user` fits.
pub open spec fn mint_fits(p: PortfolioView, asset: AssetId, user: u64, amount: i128) -> bool {
    p.balance(user, asset) + amount <= i128::MAX && p.user_pnl(user) + amount <= i128::MAX
}

/// `p` with a positive `amount` of `asset` deducted from `user`: the
/// balance goes down by it, the PnL too (saturating), and one balance
/// update is counted. A non-positive amount deducts nothing.
pub open spec fn debited(p: PortfolioView, asset: AssetId, user: u64, amount: i128) -> PortfolioView {
    if amount > 0 {
        PortfolioView {
            balances: p.balances.insert((user, asset), (p.balance(user, asset) - amount) as i128),
            pnl: p.pnl.insert(user, clamp_i128(p.user_pnl(user) - amount) as i128),
            metrics: bump_balances_updated(p.metrics, 1),
            ..p
        }
    } else {
        p
    }
}

/// How one operation steps from state `p` to state `q` with result `res`
/// (a refused or aborted step leaves `q == p`).
pub open spec fn op_step(
    p: PortfolioView,
    o: OracleView,
    op: BatchOperation,
    now: u64,
    max_slip: u32,
    res: Result<i128, BatchError>,
    q: PortfolioView,
) -> bool {
    match op {
        BatchOperation::Swap(from, to, amount, user) => {
            if p.balance(user, token_asset(from@)) < amount {
                res == Err::<i128, BatchError>(BatchError::InsufficientFunds) && q == p
            } else {
                match spec_swap_plan(p, o, from@, to@, amount, user, now, max_slip) {
                    Err(e) => res == Err::<i128, BatchError>(BatchError::Reverted(RevertReason::Swap(e))) && q == p,
                    Ok(plan) => {
                        let p2 = spec_apply_swap(p, from@, to@, amount, user, plan);
                        if p2.trade_count(user) == u32::MAX {
                            res == Err::<i128, BatchError>(BatchError::Reverted(RevertReason::ArithmeticOverflow)) && q == p
                        } else {
                            res == Ok::<i128, BatchError>(plan.out) && q == spec_record_trade(p2, user)
                        }
                    },
                }
            }
        },
        BatchOperation::AddLiquidity(x, u, user) => {
            if p.balance(user, AssetId::Xlm) < x || p.balance(user, AssetId::Custom(usdc_dash_sim_chars())) < u {
                res == Err::<i128, BatchError>(BatchError::InsufficientFunds) && q == p
            } else if x + u > i128::MAX || x + u < i128::MIN {
                res == Err::<i128, BatchError>(BatchError::Reverted(RevertReason::ArithmeticOverflow)) && q == p
            } else {
                res == Ok::<i128, BatchError>((x + u) as i128) && q == (PortfolioView {
                    xlm_in_pool: clamp_i128(p.xlm_in_pool + x) as i128,
                    usdc_in_pool: clamp_i128(p.usdc_in_pool + u) as i128,
                    lp_deposits_count: p.lp_deposits_count.insert(user, sat_inc(get_or(p.lp_deposits_count, user, 0u32))),
                    ..debited(debited(p, AssetId::Xlm, user, x), AssetId::Custom(usdc_dash_sim_chars()), user, u)
                })
            }
        },
        BatchOperation::RemoveLiquidity(x, u, user) => {
            let ua = AssetId::Custom(usdc_dash_sim_chars());
            if x < 0 || u < 0 || !mint_fits(p, AssetId::Xlm, user, x) || x + u > i128::MAX {
                res == Err::<i128, BatchError>(BatchError::Reverted(RevertReason::ArithmeticOverflow)) && q == p
            } else if !(p.balance(user, ua) + u <= i128::MAX && p.user_pnl(user) + x + u <= i128::MAX) {
                res == Err::<i128, BatchError>(BatchError::Reverted(RevertReason::ArithmeticOverflow)) && q == p
            } else {
                res == Ok::<i128, BatchError>((x + u) as i128) && exists|mid: PortfolioView|
                    #[trigger] mint_step(p, AssetId::Xlm, user, x, mid) && mint_step(mid, ua, user, u, q)
            }
        },
        BatchOperation::MintToken(token, to, amount) => {
            let a = token_asset(token@);
            if amount < 0 || !mint_fits(p, a, to, amount) {
                res == Err::<i128, BatchError>(BatchError::Reverted(RevertReason::ArithmeticOverflow)) && q == p
            } else {
                res == Ok::<i128, BatchError>(amount) && mint_step(p, a, to, amount, q)
            }
        },
    }
}

/// Whether a step aborts the whole call.
pub open spec fn is_revert(res: Result<i128, BatchError>) -> bool {
    res matches Err(BatchError::Reverted(_))
}

/// Run one operation.
fn execute_single_operation(
    portfolio: &mut Portfolio,
    oracle: &PriceOracle,
    operation: &BatchOperation,
    now: u64,
    max_slip: u32,
) -> (r: Result<i128, BatchError>)
    ensures
        op_step(old(portfolio)@, oracle@, *operation, now, max_slip, r, final(portfolio)@),
{
    match operation {
        BatchOperation::Swap(from, to, amount, user) => {
            let from_asset = batch_symbol_to_asset(from);
            let balance = portfolio.balance_of(&from_asset, *user);
            if balance < *amount {
                return Err(BatchError::InsufficientFunds);
            }
            let at_max = portfolio.get_portfolio(*user).0 == u32::MAX;
            let saved = if at_max { Some(portfolio.snapshot()) } else { None };
            let out_amount = match perform_swap(portfolio, oracle, from, to, *amount, *user, now, max_slip) {
                Ok(v) => v,
                Err(e) => {
                    return Err(BatchError::Reverted(RevertReason::Swap(e)));
                },
            };
            match saved {
                Some(p) => {
                    *portfolio = p;
                    return Err(BatchError::Reverted(RevertReason::ArithmeticOverflow));
                },
                None => {},
            }
            portfolio.record_trade(*user);
            Ok(out_amount)
        },
        BatchOperation::AddLiquidity(xlm_amount, usdc_amount, user) => {
            let xlm_balance = portfolio.balance_of(&Asset::XLM, *user);
            let usdc_balance = portfolio.balance_of(&Asset::Custom(usdc_dash_sim_symbol()), *user);
            if xlm_balance < *xlm_amount || usdc_balance < *usdc_amount {
                return Err(BatchError::InsufficientFunds);
            }
            match xlm_amount.checked_add(*usdc_amount) {
                None => Err(BatchError::Reverted(RevertReason::ArithmeticOverflow)),
                Some(total) => {
                    if *xlm_amount > 0 {
                        portfolio.debit(&Asset::XLM, *user, *xlm_amount);
                    }
                    if *usdc_amount > 0 {
                        portfolio.debit(&Asset::Custom(usdc_dash_sim_symbol()), *user, *usdc_amount);
                    }
                    portfolio.add_pool_liquidity(*xlm_amount, *usdc_amount);
                    portfolio.record_lp_deposit(*user);
                    Ok(total)
                },
            }
        },
        BatchOperation::RemoveLiquidity(xlm_amount, usdc_amount, user) => {
            let usdc = Asset::Custom(usdc_dash_sim_symbol());
            let bx = portfolio.balance_of(&Asset::XLM, *user);
            let bu = portfolio.balance_of(&usdc, *user);
            let pnl = portfolio.get_portfolio(*user).1;
            let x = *xlm_amount;
            let u = *usdc_amount;
            if x < 0 || u < 0 || bx > i128::MAX - x || pnl > i128::MAX - x || x > i128::MAX - u {
                return Err(BatchError::Reverted(RevertReason::ArithmeticOverflow));
            }
            if bu > i128::MAX - u || pnl + x > i128::MAX - u {
                return Err(BatchError::Reverted(RevertReason::ArithmeticOverflow));
            }
            let ghost p0 = portfolio@;
            portfolio.mint(&Asset::XLM, *user, x);
            let ghost mid = portfolio@;
            portfolio.mint(&usdc, *user, u);
            proof {
                assert(mint_step(p0, AssetId::Xlm, *user, x, mid));
                assert(mint_step(mid, usdc@, *user, u, portfolio@));
            }
            Ok(x + u)
        },
        BatchOperation::MintToken(token, to, amount) => {
            let asset = batch_symbol_to_asset(token);
            let b = portfolio.balance_of(&asset, *to);
            let pnl = portfolio.get_portfolio(*to).1;
            if *amount < 0 || b > i128::MAX - *amount || pnl > i128::MAX - *amount {
                return Err(BatchError::Reverted(RevertReason::ArithmeticOverflow));
            }
            portfolio.mint(&asset, *to, *amount);
            Ok(*amount)
        },
    }
}

/// `trace` and `res` follow the first `k` operations of `ops` from `p`:
/// `trace[i]` steps to `trace[i + 1]` by `ops[i]` with result `res[i]`.
pub open spec fn run_prefix(
    p: PortfolioView,
    o: OracleView,
    ops: Seq<BatchOperation>,
    now: u64,
    max_slip: u32,
    trace: Seq<PortfolioView>,
    res: Seq<Result<i128, BatchError>>,
    k: int,
) -> bool {
    &&& 0 <= k <= ops.len()
    &&& trace.len() == k + 1
    &&& res.len() == k
    &&& trace[0] == p
    &&& forall|i: int| 0 <= i < k ==> #[trigger] op_step(trace[i], o, ops[i], now, max_slip, res[i], trace[i + 1])
}

/// Each result of `res` reported in a batch result.
pub open spec fn reported(res: Seq<Result<i128, BatchError>>) -> Seq<OperationResult> {
    res.map_values(|x: Result<i128, BatchError>| match x {
        Ok(v) => OperationResult::Success(v),
        Err(e) => OperationResult::OpError(e),
    })
}

/// Number of successful results in `res`.
pub open spec fn count_ok(res: Seq<Result<i128, BatchError>>) -> nat
    decreases res.len(),
{
    if res.len() == 0 { 0 } else { count_ok(res.drop_last()) + if res.last() is Ok { 1nat } else { 0nat } }
}

/// Run a batch all-or-nothing: every operation must succeed; at the first
/// failing one the portfolio is restored and `BatchFailed` (or the abort
/// reason) is returned. An invalid batch is refused before anything runs.
pub fn execute_batch_atomic(
    portfolio: &mut Portfolio,
    oracle: &PriceOracle,
    operations: &Vec<BatchOperation>,
    now: u64,
    max_slip: u32,
) -> (r: Result<BatchResult, BatchError>)
    ensures
        spec_validate_batch(operations@) matches Err(e) ==> r == Err::<BatchResult, BatchError>(e),
        r is Err ==> final(portfolio)@ == old(portfolio)@,
        r matches Ok(br) ==> spec_validate_batch(operations@) is Ok && exists|trace: Seq<PortfolioView>, res: Seq<Result<i128, BatchError>>| {
            &&& #[trigger] run_prefix(old(portfolio)@, oracle@, operations@, now, max_slip, trace, res, operations@.len() as int)
            &&& forall|i: int| 0 <= i < res.len() ==> #[trigger] res[i] is Ok
            &&& final(portfolio)@ == trace.last()
            &&& br.results@ == reported(res)
            &&& br.operations_executed == operations@.len()
            &&& br.operations_failed == 0
        },
        spec_validate_batch(operations@) is Ok && r is Err ==> exists|trace: Seq<PortfolioView>, res: Seq<Result<i128, BatchError>>, k: int| {
            &&& #[trigger] run_prefix(old(portfolio)@, oracle@, operations@, now, max_slip, trace, res, k)
            &&& k > 0
            &&& forall|i: int| 0 <= i < k - 1 ==> #[trigger] res[i] is Ok
            &&& res[k - 1] is Err
            &&& (is_revert(res[k - 1]) ==> r == Err::<BatchResult, BatchError>(res[k - 1]->Err_0))
            &&& (!is_revert(res[k - 1]) ==> r == Err::<BatchResult, BatchError>(BatchError::BatchFailed))
        },
{
    match validate_batch(operations) {
        Err(e) => {
            return Err(e);
        },
        Ok(_) => {},
    }
    let snapshot = portfolio.snapshot();
    let ghost p0 = portfolio@;
    let mut batch_result = BatchResult::new();
    let ghost mut trace: Seq<PortfolioView> = seq![p0];
    let ghost mut res: Seq<Result<i128, BatchError>> = Seq::empty();
    let mut i: usize = 0;
    while i < operations.len()
        invariant
            0 <= i <= operations@.len(),
            operations@.len() <= 10,
            spec_validate_batch(operations@) is Ok,
            p0 == old(portfolio)@,
            snapshot@ == p0,
            run_prefix(p0, oracle@, operations@, now, max_slip, trace, res, i as int),
            forall|j: int| 0 <= j < res.len() ==> #[trigger] res[j] is Ok,
            portfolio@ == trace.last(),
            batch_result.results@ == reported(res),
            batch_result.operations_executed == i,
            batch_result.operations_failed == 0,
        decreases operations@.len() - i,
    {
        let ghost before = portfolio@;
        let step = execute_single_operation(portfolio, oracle, &operations[i], now, max_slip);
        proof {
            let t2 = trace.push(portfolio@);
            let r2 = res.push(step);
            assert forall|j: int| 0 <= j < i + 1 implies #[trigger] op_step(t2[j], oracle@, operations@[j], now, max_slip, r2[j], t2[j + 1]) by {
                if j < i {
                    assert(t2[j] == trace[j] && t2[j + 1] == trace[j + 1] && r2[j] == res[j]);
                }
            }
            trace = t2;
            res = r2;
        }
        match step {
            Ok(result) => {
                batch_result.results.push(OperationResult::Success(result));
                batch_result.operations_executed = batch_result.operations_executed + 1;
                proof {
                    assert(batch_result.results@ =~= reported(res));
                }
            },
            Err(e) => {
                *portfolio = snapshot;
                proof {
                    assert(run_prefix(p0, oracle@, operations@, now, max_slip, trace, res, (i + 1) as int));
                }
                match e {
                    BatchError::Reverted(reason) => {
                        return Err(BatchError::Reverted(reason));
                    },
                    _ => {
                        return Err(BatchError::BatchFailed);
                    },
                }
            },
        }
        i = i + 1;
    }
    Ok(batch_result)
}

/// Run a batch best-effort: each operation is tried in turn and a failing
/// one is recorded and skipped. An invalid batch is refused before anything
/// runs, and a step that aborts the call restores the portfolio.
pub fn execute_batch_best_effort(
    portfolio: &mut Portfolio,
    oracle: &PriceOracle,
    operations: &Vec<BatchOperation>,
    now: u64,
    max_slip: u32,
) -> (r: Result<BatchResult, BatchError>)
    ensures
        spec_validate_batch(operations@) matches Err(e) ==> r == Err::<BatchResult, BatchError>(e),
        r is Err ==> final(portfolio)@ == old(portfolio)@,
        r matches Ok(br) ==> spec_validate_batch(operations@) is Ok && exists|trace: Seq<PortfolioView>, res: Seq<Result<i128, BatchError>>| {
            &&& #[trigger] run_prefix(old(portfolio)@, oracle@, operations@, now, max_slip, trace, res, operations@.len() as int)
            &&& forall|i: int| 0 <= i < res.len() ==> !is_revert(#[trigger] res[i])
            &&& final(portfolio)@ == trace.last()
            &&& br.results@ == reported(res)
            &&& br.operations_executed == count_ok(res)
            &&& br.operations_executed + br.operations_failed == operations@.len()
        },
        spec_validate_batch(operations@) is Ok && r is Err ==> exists|trace: Seq<PortfolioView>, res: Seq<Result<i128, BatchError>>, k: int| {
            &&& #[trigger] run_prefix(old(portfolio)@, oracle@, operations@, now, max_slip, trace, res, k)
            &&& k > 0
            &&& forall|i: int| 0 <= i < k - 1 ==> !is_revert(#[trigger] res[i])
            &&& is_revert(res[k - 1])
            &&& r == Err::<BatchResult, BatchError>(res[k - 1]->Err_0)
        },
{
    match validate_batch(operations) {
        Err(e) => {
            return Err(e);
        },
        Ok(_) => {},
    }
    let snapshot = portfolio.snapshot();
    let ghost p0 = portfolio@;
    let mut batch_result = BatchResult::new();
    let ghost mut trace: Seq<PortfolioView> = seq![p0];
    let ghost mut res: Seq<Result<i128, BatchError>> = Seq::empty();
    let mut i: usize = 0;
    while i < operations.len()
        invariant
            0 <= i <= operations@.len(),
            operations@.len() <= 10,
            spec_validate_batch(operations@) is Ok,
            p0 == old(portfolio)@,
            snapshot@ == p0,
            run_prefix(p0, oracle@, operations@, now, max_slip, trace, res, i as int),
            forall|j: int| 0 <= j < res.len() ==> !is_revert(#[trigger] res[j]),
            portfolio@ == trace.last(),
            batch_result.results@ == reported(res),
            batch_result.operations_executed == count_ok(res),
            batch_result.operations_executed + batch_result.operations_failed == i,
        decreases operations@.len() - i,
    {
        let step = execute_single_operation(portfolio, oracle, &operations[i], now, max_slip);
        proof {
            let t2 = trace.push(portfolio@);
            let r2 = res.push(step);
            assert forall|j: int| 0 <= j < i + 1 implies #[trigger] op_step(t2[j], oracle@, operations@[j], now, max_slip, r2[j], t2[j + 1]) by {
                if j < i {
                    assert(t2[j] == trace[j] && t2[j + 1] == trace[j + 1] && r2[j] == res[j]);
                }
            }
            assert(r2.drop_last() == res);
            trace = t2;
            res = r2;
        }
        match step {
            Ok(result) => {
                batch_result.results.push(OperationResult::Success(result));
                batch_result.operations_executed = batch_result.operations_executed + 1;
                proof {
                    assert(batch_result.results@ =~= reported(res));
                }
            },
            Err(e) => {
                match e {
                    BatchError::Reverted(reason) => {
                        *portfolio = snapshot;
                        proof {
                            assert(run_prefix(p0, oracle@, operations@, now, max_slip, trace, res, (i + 1) as int));
                        }
                        return Err(BatchError::Reverted(reason));
                    },
                    _ => {
                        batch_result.results.push(OperationResult::OpError(e));
                        batch_result.operations_failed = batch_result.operations_failed + 1;
                        proof {
                            assert(batch_result.results@ =~= reported(res));
                        }
                    },
                }
            },
        }
        i = i + 1;
    }
    Ok(batch_result)
}

} // verus!
