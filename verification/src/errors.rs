//! Unified error catalog. Each error has a stable numeric code:
//! admin 1, trading state 10-19, validation 100-109, oracle and invariants
//! 200-209, rate limiting and slippage 300-309, liquidity 400-409,
//! KYC 500-510, staking 600-605, emergency 700.

use vstd::prelude::*;

verus! {

/// Every failure mode of the platform, each with its own code.
#[derive(Clone, Copy, Debug, PartialEq, Eq, Structural)]
pub enum SwapTradeError {
    NotAdmin,
    TradingPaused,
    UserFrozen,
    CircuitBreakerTripped,
    InvalidAmount,
    AmountOverflow,
    InvalidTokenSymbol,
    InvalidSwapPair,
    InsufficientBalance,
    ZeroAmountSwap,
    InvalidUserAddress,
    InvariantViolation,
    StalePrice,
    InvalidPrice,
    PriceNotSet,
    RateLimitExceeded,
    SlippageExceeded,
    LPPositionNotFound,
    InsufficientLPTokens,
    KYCVerificationRequired,
    NotKYCOperator,
    InvalidKYCStateTransition,
    KYCTerminalStateImmutable,
    SelfVerificationNotAllowed,
    KYCOverrideNotFound,
    KYCTimelockNotElapsed,
    KYCOverrideAlreadyExecuted,
    InvalidTimelockDuration,
    KYCRequestExpired,
    InvalidExpiryDuration,
    InvalidStakeDuration,
    StakeNotFound,
    StakeNotActive,
    StakeLocked,
    NoClaimableBonuses,
    DistributionTooEarly,
    NotEmergencyAdmin,
    SelfReferral,
    AlreadyReferred,
    CircularReferral,
}

/// Alias kept for modules that name the catalog `ContractError`.
pub type ContractError = SwapTradeError;

/// The numeric code of each error.
pub open spec fn error_code(e: SwapTradeError) -> u32 {
    match e {
        SwapTradeError::NotAdmin => 1,
        SwapTradeError::TradingPaused => 10,
        SwapTradeError::UserFrozen => 11,
        SwapTradeError::CircuitBreakerTripped => 12,
        SwapTradeError::InvalidAmount => 100,
        SwapTradeError::AmountOverflow => 101,
        SwapTradeError::InvalidTokenSymbol => 102,
        SwapTradeError::InvalidSwapPair => 103,
        SwapTradeError::InsufficientBalance => 104,
        SwapTradeError::ZeroAmountSwap => 105,
        SwapTradeError::InvalidUserAddress => 106,
        SwapTradeError::InvariantViolation => 200,
        SwapTradeError::StalePrice => 201,
        SwapTradeError::InvalidPrice => 202,
        SwapTradeError::PriceNotSet => 203,
        SwapTradeError::RateLimitExceeded => 300,
        SwapTradeError::SlippageExceeded => 301,
        SwapTradeError::LPPositionNotFound => 400,
        SwapTradeError::InsufficientLPTokens => 401,
        SwapTradeError::KYCVerificationRequired => 500,
        SwapTradeError::NotKYCOperator => 501,
        SwapTradeError::InvalidKYCStateTransition => 502,
        SwapTradeError::KYCTerminalStateImmutable => 503,
        SwapTradeError::SelfVerificationNotAllowed => 504,
        SwapTradeError::KYCOverrideNotFound => 505,
        SwapTradeError::KYCTimelockNotElapsed => 506,
        SwapTradeError::KYCOverrideAlreadyExecuted => 507,
        SwapTradeError::InvalidTimelockDuration => 508,
        SwapTradeError::KYCRequestExpired => 509,
        SwapTradeError::InvalidExpiryDuration => 510,
        SwapTradeError::InvalidStakeDuration => 600,
        SwapTradeError::StakeNotFound => 601,
        SwapTradeError::StakeNotActive => 602,
        SwapTradeError::StakeLocked => 603,
        SwapTradeError::NoClaimableBonuses => 604,
        SwapTradeError::DistributionTooEarly => 605,
        SwapTradeError::NotEmergencyAdmin => 700,
        SwapTradeError::SelfReferral => 800,
        SwapTradeError::AlreadyReferred => 801,
        SwapTradeError::CircularReferral => 802,
    }
}

impl SwapTradeError {
    /// The numeric code of this error.
    pub fn code(&self) -> (c: u32)
        ensures
            c == error_code(*self),
    {
        match self {
            SwapTradeError::NotAdmin => 1,
            SwapTradeError::TradingPaused => 10,
            SwapTradeError::UserFrozen => 11,
            SwapTradeError::CircuitBreakerTripped => 12,
            SwapTradeError::InvalidAmount => 100,
            SwapTradeError::AmountOverflow => 101,
            SwapTradeError::InvalidTokenSymbol => 102,
            SwapTradeError::InvalidSwapPair => 103,
            SwapTradeError::InsufficientBalance => 104,
            SwapTradeError::ZeroAmountSwap => 105,
            SwapTradeError::InvalidUserAddress => 106,
            SwapTradeError::InvariantViolation => 200,
            SwapTradeError::StalePrice => 201,
            SwapTradeError::InvalidPrice => 202,
            SwapTradeError::PriceNotSet => 203,
            SwapTradeError::RateLimitExceeded => 300,
            SwapTradeError::SlippageExceeded => 301,
            SwapTradeError::LPPositionNotFound => 400,
            SwapTradeError::InsufficientLPTokens => 401,
            SwapTradeError::KYCVerificationRequired => 500,
            SwapTradeError::NotKYCOperator => 501,
            SwapTradeError::InvalidKYCStateTransition => 502,
            SwapTradeError::KYCTerminalStateImmutable => 503,
            SwapTradeError::SelfVerificationNotAllowed => 504,
            SwapTradeError::KYCOverrideNotFound => 505,
            SwapTradeError::KYCTimelockNotElapsed => 506,
            SwapTradeError::KYCOverrideAlreadyExecuted => 507,
            SwapTradeError::InvalidTimelockDuration => 508,
            SwapTradeError::KYCRequestExpired => 509,
            SwapTradeError::InvalidExpiryDuration => 510,
            SwapTradeError::InvalidStakeDuration => 600,
            SwapTradeError::StakeNotFound => 601,
            SwapTradeError::StakeNotActive => 602,
            SwapTradeError::StakeLocked => 603,
            SwapTradeError::NoClaimableBonuses => 604,
            SwapTradeError::DistributionTooEarly => 605,
            SwapTradeError::NotEmergencyAdmin => 700,
            SwapTradeError::SelfReferral => 800,
            SwapTradeError::AlreadyReferred => 801,
            SwapTradeError::CircularReferral => 802,
        }
    }
}

/// No two errors share a code.
pub proof fn lemma_error_codes_distinct(a: SwapTradeError, b: SwapTradeError)
    requires
        a != b,
    ensures
        error_code(a) != error_code(b),
{
}

} // verus!
