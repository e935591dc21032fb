//! Verified core of a simulated on-chain trading platform: user tiers and
//! fees, portfolio balances, constant-product AMM swaps, liquidity provision,
//! batches, referrals, governance timelocks, emergency controls and the
//! invariants that tie them together.

pub mod tiers;
pub mod symbols;
pub mod errors;
pub mod validation;
pub mod math;
pub mod invariants;
pub mod store;
pub mod oracle;
pub mod leaderboard;
pub mod portfolio;
pub mod trading;
pub mod liquidity;
pub mod batch;
pub mod contract;
pub mod referral;
pub mod referral_system;
pub mod emergency;
pub mod nonce;
pub mod bridge;
pub mod admin;
pub mod governance_params;
pub mod concentration_risk;
pub mod audit;
pub mod audit_stats;
pub mod governance_system;
pub mod events;
pub mod ping;
pub mod swap_guard;
pub mod multihop;
pub mod fixed_balances;
pub mod governance_simulation;
pub mod fee_quote;
