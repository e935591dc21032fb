# swaptrade

A verified core for a simulated trading platform: users hold virtual assets,
swap them against a constant-product pool, provide liquidity, earn tiers,
badges and referral rewards, and operators run governance, emergency and
audit tooling. Every public function in `src/` carries a Verus contract and is
proved against it.

## Layout

- `src/` — the library, verified with Verus.
  - `portfolio`, `leaderboard`, `store`: balances, PnL, badges, tiers,
    transaction history and the top-traders board, over a keyed list with
    unique keys.
  - `trading`, `oracle`, `tiers`, `validation`: pricing with staleness
    checks, the 0.3% pool fee, slippage limits and user-tier fees.
  - `liquidity`: deposits (integer square root for the first one) and
    proportional withdrawals of LP tokens.
  - `batch`: validated batches run all-or-nothing or best-effort.
  - `contract`: the contract entry points over one state value.
  - `referral`, `referral_system`: referral codes and two-level
    commissions.
  - `governance_params`, `governance_system`, `governance_simulation`,
    `admin`: timelocked parameters, proposals and votes.
  - `emergency`, `swap_guard`, `nonce`, `bridge`, `concentration_risk`:
    pause, freeze, circuit breaker, replay protection, bridge requests and
    concentration scores.
  - `audit`, `audit_stats`: SHA-256 hash chains, Merkle roots, event
    queries and per-category counts over exported audit trails.
  - `invariants`: the state checks run after operations.
- `tests/` — executable tests of the library.
- `app/` — the `audit-tools` command line program: it reads a JSON report,
  calls the library for every check, and prints the results.

Outside crates: `sha2` and `hex` are called from the library behind small
trusted wrappers in `src/audit.rs`; `clap`, `serde` and `serde_json` are
used by `app/` only.
