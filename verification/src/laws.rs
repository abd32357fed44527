use vstd::prelude::*;

use crate::math::is_floor_sqrt;
use crate::liquidity::spec_withdraw_amount;
use crate::swap::lemma_after_fee_positive;
use crate::swap::spec_amount_in_after_fee;
use crate::swap::spec_fee;
use crate::swap::spec_swap_out;
use vstd::arithmetic::div_mod::lemma_div_is_ordered;
use vstd::arithmetic::div_mod::lemma_div_multiples_vanish;
use vstd::arithmetic::div_mod::lemma_div_pos_is_pos;
use vstd::arithmetic::div_mod::lemma_fundamental_div_mod;
use vstd::arithmetic::mul::lemma_mul_inequality;
use vstd::arithmetic::mul::lemma_mul_is_commutative;

verus! {

/// Invariant monotonicity. For every valid swap — a positive input against
/// the current reserves — the product of the reserves after the swap (the
/// whole input, fee included, added to the input reserve; the computed
/// output taken from the output reserve) is at least the product before.
/// When the fee is positive and both reserves are, the product grows
/// strictly.
pub proof fn lemma_swap_product_non_decreasing(amount_in: int, reserve_in: int, reserve_out: int)
    requires
        amount_in >= 1,
        reserve_in >= 0,
        reserve_out >= 0,
    ensures
        0 <= spec_swap_out(amount_in, reserve_in, reserve_out) <= reserve_out,
        (reserve_in + amount_in) * (reserve_out - spec_swap_out(amount_in, reserve_in, reserve_out))
            >= reserve_in * reserve_out,
        (spec_fee(amount_in) >= 1 && reserve_in >= 1 && reserve_out >= 1) ==> (reserve_in
            + amount_in) * (reserve_out - spec_swap_out(amount_in, reserve_in, reserve_out))
            > reserve_in * reserve_out,
{
    lemma_after_fee_positive(amount_in);
    let x = spec_amount_in_after_fee(amount_in);
    let denom = reserve_in + x;
    let out = spec_swap_out(amount_in, reserve_in, reserve_out);
    // Output stays within the output reserve.
    lemma_mul_inequality(x, denom, reserve_out);
    lemma_mul_is_commutative(x, reserve_out);
    lemma_mul_is_commutative(denom, reserve_out);
    lemma_div_is_ordered(reserve_out * x, reserve_out * denom, denom);
    lemma_div_multiples_vanish(reserve_out, denom);
    assert(reserve_out * x >= 0) by (nonlinear_arith)
        requires
            reserve_out >= 0,
            x >= 1,
    ;
    lemma_div_pos_is_pos(reserve_out * x, denom);
    // The division leaves a remainder below the denominator, so the value
    // kept by the pool covers the old product.
    lemma_fundamental_div_mod(reserve_out * x, denom);
    let rem = (reserve_out * x) % denom;
    assert(denom * (reserve_out - out) == reserve_in * reserve_out + rem) by (nonlinear_arith)
        requires
            reserve_out * x == denom * out + rem,
            denom == reserve_in + x,
    ;
    assert(rem >= 0);
    lemma_mul_inequality(denom, reserve_in + amount_in, reserve_out - out);
    // Strict growth when a positive fee stays behind in a funded pool.
    if spec_fee(amount_in) >= 1 && reserve_in >= 1 && reserve_out >= 1 {
        assert(reserve_out * x < reserve_out * denom) by (nonlinear_arith)
            requires
                x < denom,
                reserve_out >= 1,
        ;
        if out >= reserve_out {
            lemma_mul_inequality(reserve_out, out, denom);
            lemma_mul_is_commutative(out, denom);
            lemma_mul_is_commutative(reserve_out, denom);
            assert(false);
        }
        assert((reserve_in + amount_in) * (reserve_out - out) >= denom * (reserve_out - out) + (
        reserve_out - out)) by (nonlinear_arith)
            requires
                reserve_in + amount_in >= denom + 1,
                reserve_out - out >= 1,
        ;
    }
}

/// Proportional redemption round trip. The claim tokens minted by a first
/// deposit of `(amount_a, amount_b)` into an empty pool, redeemed in full
/// against the still-untouched pool, pay out exactly `(amount_a,
/// amount_b)`: redemption is the exact proportional inverse of deposit
/// accounting.
pub proof fn lemma_deposit_redeem_round_trip(amount_a: int, amount_b: int, minted: int)
    requires
        amount_a >= 1,
        amount_b >= 1,
        is_floor_sqrt(amount_a * amount_b, minted),
    ensures
        minted >= 1,
        spec_withdraw_amount(minted, amount_a, minted) == amount_a,
        spec_withdraw_amount(minted, amount_b, minted) == amount_b,
{
    assert(amount_a * amount_b >= 1) by (nonlinear_arith)
        requires
            amount_a >= 1,
            amount_b >= 1,
    ;
    if minted == 0 {
        assert((minted + 1) * (minted + 1) == 1) by (nonlinear_arith)
            requires
                minted == 0,
        ;
    }
    lemma_div_multiples_vanish(amount_a, minted);
    lemma_div_multiples_vanish(amount_b, minted);
    lemma_mul_is_commutative(minted, amount_a);
    lemma_mul_is_commutative(minted, amount_b);
}

} // verus!
