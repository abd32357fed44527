use vstd::prelude::*;

use crate::errors::ErrorCode;
use crate::math::lemma_u64_mul_fits_u128;
use crate::pool::Pool;
use vstd::arithmetic::div_mod::lemma_div_is_ordered;
use vstd::arithmetic::div_mod::lemma_div_multiples_vanish;
use vstd::arithmetic::div_mod::lemma_fundamental_div_mod;
use vstd::arithmetic::mul::lemma_mul_inequality;
use vstd::arithmetic::mul::lemma_mul_is_commutative;

verus! {

/// Numerator of the proportional swap fee.
pub const FEE_RATE: u128 = 1;

/// Denominator of the proportional swap fee: together with `FEE_RATE` this
/// is a 0.1% fee, taken from the input amount.
pub const FEE_DENOMINATOR: u128 = 1000;

/// Fee withheld from `amount_in`, at rate `FEE_RATE / FEE_DENOMINATOR`,
/// floor division.
pub open spec fn spec_fee(amount_in: int) -> int {
    amount_in * (FEE_RATE as int) / (FEE_DENOMINATOR as int)
}

/// The input amount actually priced in: the fee stays in the input reserve
/// and accrues to the pool.
pub open spec fn spec_amount_in_after_fee(amount_in: int) -> int {
    amount_in - spec_fee(amount_in)
}

/// Constant-product output amount:
/// `reserve_out * x / (reserve_in + x)` with `x` the fee-adjusted input.
pub open spec fn spec_swap_out(amount_in: int, reserve_in: int, reserve_out: int) -> int {
    reserve_out * spec_amount_in_after_fee(amount_in) / (reserve_in
        + spec_amount_in_after_fee(amount_in))
}

/// A positive input keeps at least one unit after the fee: the fee is a
/// floored thousandth of the input, so it always stays strictly below it.
/// From one thousand units up the floor no longer erases the fee.
pub proof fn lemma_after_fee_positive(amount_in: int)
    requires
        amount_in >= 1,
    ensures
        0 <= spec_fee(amount_in) < amount_in,
        1 <= spec_amount_in_after_fee(amount_in) <= amount_in,
        amount_in >= FEE_DENOMINATOR as int ==> spec_fee(amount_in) >= 1,
{
    lemma_fundamental_div_mod(amount_in * (FEE_RATE as int), FEE_DENOMINATOR as int);
    assert(amount_in * (FEE_RATE as int) == amount_in);
}

/// The computed output never exceeds the output reserve: the numerator
/// `reserve_out * x` is at most `reserve_out` times the denominator.
proof fn lemma_swap_out_le_reserve_out(x: int, reserve_in: int, reserve_out: int)
    requires
        x >= 1,
        reserve_in >= 0,
        reserve_out >= 0,
    ensures
        0 <= reserve_out * x / (reserve_in + x) <= reserve_out,
{
    let denom = reserve_in + x;
    lemma_mul_inequality(x, denom, reserve_out);
    lemma_mul_is_commutative(x, reserve_out);
    lemma_mul_is_commutative(denom, reserve_out);
    lemma_div_is_ordered(reserve_out * x, reserve_out * denom, denom);
    lemma_div_multiples_vanish(reserve_out, denom);
    lemma_mul_is_commutative(reserve_out, denom);
    assert(reserve_out * x >= 0) by (nonlinear_arith)
        requires
            reserve_out >= 0,
            x >= 1,
    ;
    assert(reserve_out * x / denom >= 0) by (nonlinear_arith)
        requires
            reserve_out * x >= 0,
            denom >= 1,
    ;
}

/// Swap pricing. Given the identity of the asset the caller pays in (which
/// must be one of the pool's two assets; the output asset is the other),
/// the input amount, the caller's slippage floor, and a snapshot of the two
/// reserve balances, computes the exact output amount, or the error that
/// aborts the swap. On success the host transfers `amount_in` into the
/// input reserve — fee included, so the fee accrues to the pool — and the
/// returned amount out of the output reserve, which it never exceeds.
pub fn swap(
    pool: &Pool,
    asset_in: u64,
    amount_in: u64,
    min_amount_out: u64,
    reserve_a: u64,
    reserve_b: u64,
) -> (r: Result<u64, ErrorCode>)
    requires
        pool.wf(),
        asset_in == pool.mint_a || asset_in == pool.mint_b,
    ensures
        amount_in == 0 ==> r == Err::<u64, ErrorCode>(ErrorCode::ZeroAmount),
        amount_in > 0 ==> ({
            let reserve_in = if asset_in == pool.mint_a {
                reserve_a as int
            } else {
                reserve_b as int
            };
            let reserve_out = if asset_in == pool.mint_a {
                reserve_b as int
            } else {
                reserve_a as int
            };
            let amount_out = spec_swap_out(amount_in as int, reserve_in, reserve_out);
            if amount_out < min_amount_out as int {
                r == Err::<u64, ErrorCode>(ErrorCode::SlippageExceeded)
            } else {
                r matches Ok(out) && out as int == amount_out && out as int <= reserve_out
            }
        }),
{
    if amount_in == 0 {
        return Err(ErrorCode::ZeroAmount);
    }
    let reserve_in: u64 = if asset_in == pool.mint_a {
        reserve_a
    } else {
        reserve_b
    };
    let reserve_out: u64 = if asset_in == pool.mint_a {
        reserve_b
    } else {
        reserve_a
    };
    let fee: u128 = (amount_in as u128) * FEE_RATE / FEE_DENOMINATOR;
    proof {
        lemma_after_fee_positive(amount_in as int);
    }
    let amount_in_after_fee: u128 = (amount_in as u128) - fee;
    proof {
        lemma_u64_mul_fits_u128(reserve_out as int, amount_in_after_fee as int);
    }
    let numerator: u128 = (reserve_out as u128) * amount_in_after_fee;
    let denominator: u128 = (reserve_in as u128) + amount_in_after_fee;
    let amount_out_wide: u128 = numerator / denominator;
    proof {
        lemma_swap_out_le_reserve_out(
            amount_in_after_fee as int,
            reserve_in as int,
            reserve_out as int,
        );
    }
    let amount_out: u64 = amount_out_wide as u64;
    if amount_out < min_amount_out {
        return Err(ErrorCode::SlippageExceeded);
    }
    Ok(amount_out)
}

} // verus!
