use vstd::prelude::*;

verus! {

/// Failure codes of the pool engine. Every operation either completes in
/// full or reports exactly one of these; the first failing check aborts the
/// whole operation before any balance-mutating effect is requested.
#[derive(Clone, Copy, Debug, PartialEq, Eq, Structural)]
pub enum ErrorCode {
    /// A quantity that must be strictly positive was zero, or rounded to zero.
    ZeroAmount,
    /// A non-first deposit's amounts do not match the pool's current price exactly.
    InvalidRatio,
    /// Redemption was attempted against a pool with zero claim-token supply.
    InsufficientLiquidity,
    /// The caller's claim-token balance is less than the amount to redeem.
    InsufficientLpTokens,
    /// A checked multiply, divide or narrowing in the liquidity path failed.
    CalculationOverflow,
    /// A nonzero redemption computed to a zero amount for either asset.
    ZeroWithdrawAmount,
    /// The computed swap output is below the caller's declared floor.
    SlippageExceeded,
    /// A checked arithmetic step in the swap path failed.
    CalculationFailure,
}

} // verus!
