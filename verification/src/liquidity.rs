use vstd::prelude::*;

use crate::errors::ErrorCode;
use crate::math::is_floor_sqrt;
use crate::math::isqrt_u128;
use crate::math::lemma_u64_mul_fits_u128;
use vstd::arithmetic::mul::lemma_mul_inequality;
use vstd::arithmetic::mul::lemma_mul_is_commutative;

verus! {

/// Exact amount of asset B that a deposit of `amount_a` must bring to match
/// the pool's current price (floor division).
pub open spec fn spec_required_b(amount_a: int, reserve_a: int, reserve_b: int) -> int {
    amount_a * reserve_b / reserve_a
}

/// Claim tokens minted for a deposit of `amount_a` against reserve
/// `reserve_a` when the claim-token supply is `supply` (floor division).
pub open spec fn spec_lp_to_mint(amount_a: int, reserve_a: int, supply: int) -> int {
    amount_a * supply / reserve_a
}

/// Amount of one asset paid out when `lp_amount` claim tokens are redeemed
/// against reserve `reserve` at claim-token supply `supply` (floor division).
pub open spec fn spec_withdraw_amount(lp_amount: int, reserve: int, supply: int) -> int {
    lp_amount * reserve / supply
}

/// The root returned for a product of two 64-bit amounts itself fits in 64
/// bits: a larger root would square past the largest such product.
proof fn lemma_floor_sqrt_fits_u64(n: int, r: int)
    requires
        is_floor_sqrt(n, r),
        n <= u64::MAX * u64::MAX,
    ensures
        r <= u64::MAX,
{
    if r > u64::MAX {
        lemma_mul_inequality(u64::MAX + 1, r, r);
        lemma_mul_inequality(u64::MAX + 1, r, u64::MAX + 1);
        lemma_mul_is_commutative(r, u64::MAX + 1);
        assert((u64::MAX + 1) * (u64::MAX + 1) <= r * r);
        assert(u64::MAX * u64::MAX < (u64::MAX + 1) * (u64::MAX + 1)) by (nonlinear_arith);
    }
}

/// Deposit accounting. Given the desired deposit amounts and a snapshot of
/// the pool (reserve balances and claim-token supply), computes the number
/// of claim tokens to mint, or the error that aborts the deposit. On
/// success the host transfers `amount_a` and `amount_b` into the reserves
/// and mints the returned quantity to the depositor.
///
/// A first deposit (zero supply) mints the integer square root of
/// `amount_a * amount_b`, anchoring the initial price to the depositor's
/// own ratio. A later deposit must match the pool's current price exactly
/// and mints a proportional share of the supply.
///
/// The snapshot must satisfy the pool invariant that a positive supply is
/// backed by a positive asset-A reserve.
pub fn add_liquidity(
    amount_a: u64,
    amount_b: u64,
    reserve_a: u64,
    reserve_b: u64,
    supply: u64,
) -> (r: Result<u64, ErrorCode>)
    requires
        supply > 0 ==> reserve_a > 0,
    ensures
        (amount_a == 0 || amount_b == 0) ==> r == Err::<u64, ErrorCode>(ErrorCode::ZeroAmount),
        (amount_a > 0 && amount_b > 0 && supply == 0) ==> (r matches Ok(m)
            && is_floor_sqrt(amount_a as int * amount_b as int, m as int) && m > 0),
        (amount_a > 0 && amount_b > 0 && supply > 0 && spec_required_b(
            amount_a as int,
            reserve_a as int,
            reserve_b as int,
        ) != amount_b as int) ==> r == Err::<u64, ErrorCode>(ErrorCode::InvalidRatio),
        (amount_a > 0 && amount_b > 0 && supply > 0 && spec_required_b(
            amount_a as int,
            reserve_a as int,
            reserve_b as int,
        ) == amount_b as int) ==> (if spec_lp_to_mint(
            amount_a as int,
            reserve_a as int,
            supply as int,
        ) > u64::MAX as int {
            r == Err::<u64, ErrorCode>(ErrorCode::CalculationOverflow)
        } else {
            r matches Ok(m) && m as int == spec_lp_to_mint(
                amount_a as int,
                reserve_a as int,
                supply as int,
            )
        }),
{
    if amount_a == 0 || amount_b == 0 {
        return Err(ErrorCode::ZeroAmount);
    }
    if supply == 0 {
        // First deposit: mint the geometric mean of the two amounts.
        proof {
            lemma_u64_mul_fits_u128(amount_a as int, amount_b as int);
        }
        let product: u128 = (amount_a as u128) * (amount_b as u128);
        let root: u128 = isqrt_u128(product);
        proof {
            lemma_floor_sqrt_fits_u64(product as int, root as int);
        }
        let lp_to_mint: u64 = root as u64;
        if lp_to_mint == 0 {
            // Unreachable for positive amounts: their product is at least 1,
            // so its root is at least 1. Kept as a guard on the mint quantity.
            proof {
                assert(amount_a as int * amount_b as int >= 1) by (nonlinear_arith)
                    requires
                        amount_a >= 1,
                        amount_b >= 1,
                ;
                assert((root as int + 1) * (root as int + 1) == 1) by (nonlinear_arith)
                    requires
                        root == 0u128,
                ;
            }
            return Err(ErrorCode::ZeroAmount);
        }
        Ok(lp_to_mint)
    } else {
        // Later deposit: it must come in at the pool's current price.
        proof {
            lemma_u64_mul_fits_u128(amount_a as int, reserve_b as int);
        }
        let required_b: u128 = (amount_a as u128) * (reserve_b as u128) / (reserve_a as u128);
        if required_b != amount_b as u128 {
            return Err(ErrorCode::InvalidRatio);
        }
        proof {
            lemma_u64_mul_fits_u128(amount_a as int, supply as int);
        }
        let lp_wide: u128 = (amount_a as u128) * (supply as u128) / (reserve_a as u128);
        if lp_wide > u64::MAX as u128 {
            return Err(ErrorCode::CalculationOverflow);
        }
        Ok(lp_wide as u64)
    }
}

/// Redemption accounting. Given the claim tokens to redeem, a snapshot of
/// the pool, and the caller's claim-token balance, computes the exact
/// proportional share of each reserve to pay out, or the error that aborts
/// the redemption. On success the host burns `lp_amount` from the caller
/// and transfers the returned pair out of the reserves.
///
/// Redemption never depends on the swap fee: it is the exact proportional
/// inverse of deposit accounting at the instantaneous reserves and supply.
pub fn remove_liquidity(
    lp_amount: u64,
    reserve_a: u64,
    reserve_b: u64,
    supply: u64,
    user_lp_balance: u64,
) -> (r: Result<(u64, u64), ErrorCode>)
    ensures
        lp_amount == 0 ==> r == Err::<(u64, u64), ErrorCode>(ErrorCode::ZeroAmount),
        (lp_amount > 0 && supply == 0) ==> r == Err::<(u64, u64), ErrorCode>(
            ErrorCode::InsufficientLiquidity,
        ),
        (lp_amount > 0 && supply > 0 && user_lp_balance < lp_amount) ==> r == Err::<
            (u64, u64),
            ErrorCode,
        >(ErrorCode::InsufficientLpTokens),
        (lp_amount > 0 && supply > 0 && user_lp_balance >= lp_amount) ==> ({
            let amount_out_a = spec_withdraw_amount(lp_amount as int, reserve_a as int, supply as int);
            let amount_out_b = spec_withdraw_amount(lp_amount as int, reserve_b as int, supply as int);
            if amount_out_a > u64::MAX as int || amount_out_b > u64::MAX as int {
                r == Err::<(u64, u64), ErrorCode>(ErrorCode::CalculationOverflow)
            } else if amount_out_a == 0 || amount_out_b == 0 {
                r == Err::<(u64, u64), ErrorCode>(ErrorCode::ZeroWithdrawAmount)
            } else {
                r matches Ok(pair) && pair.0 as int == amount_out_a && pair.1 as int
                    == amount_out_b
            }
        }),
{
    if lp_amount == 0 {
        return Err(ErrorCode::ZeroAmount);
    }
    if supply == 0 {
        return Err(ErrorCode::InsufficientLiquidity);
    }
    if user_lp_balance < lp_amount {
        return Err(ErrorCode::InsufficientLpTokens);
    }
    proof {
        lemma_u64_mul_fits_u128(lp_amount as int, reserve_a as int);
        lemma_u64_mul_fits_u128(lp_amount as int, reserve_b as int);
    }
    let amount_a_wide: u128 = (lp_amount as u128) * (reserve_a as u128) / (supply as u128);
    if amount_a_wide > u64::MAX as u128 {
        return Err(ErrorCode::CalculationOverflow);
    }
    let amount_b_wide: u128 = (lp_amount as u128) * (reserve_b as u128) / (supply as u128);
    if amount_b_wide > u64::MAX as u128 {
        return Err(ErrorCode::CalculationOverflow);
    }
    let amount_a: u64 = amount_a_wide as u64;
    let amount_b: u64 = amount_b_wide as u64;
    if amount_a == 0 || amount_b == 0 {
        return Err(ErrorCode::ZeroWithdrawAmount);
    }
    Ok((amount_a, amount_b))
}

} // verus!
