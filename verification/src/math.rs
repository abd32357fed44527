use vstd::prelude::*;

verus! {

/// `r` is the integer square root of `n`: the greatest integer whose square
/// does not exceed `n`.
pub open spec fn is_floor_sqrt(n: int, r: int) -> bool {
    &&& 0 <= r
    &&& r * r <= n
    &&& n < (r + 1) * (r + 1)
}

/// A number has only one integer square root: two roots of `n` would have
/// to separate `n` from itself.
pub proof fn lemma_floor_sqrt_unique(n: int, r1: int, r2: int)
    by (nonlinear_arith)
    requires
        is_floor_sqrt(n, r1),
        is_floor_sqrt(n, r2),
    ensures
        r1 == r2,
{
}

/// Upper end of the square-root binary search: 2^64. Its square, 2^128,
/// exceeds every `u128`, so the root of any `u128` lies below it.
const SQRT_SEARCH_BOUND: u128 = 0x1_0000_0000_0000_0000;

/// The product of two values that each fit in 64 bits fits in 128 bits.
pub proof fn lemma_u64_mul_fits_u128(x: int, y: int)
    by (nonlinear_arith)
    requires
        0 <= x <= u64::MAX,
        0 <= y <= u64::MAX,
    ensures
        0 <= x * y <= u64::MAX * u64::MAX,
        x * y <= u128::MAX,
{
}

/// Integer square root of a `u128`, by binary search on the root.
pub fn isqrt_u128(n: u128) -> (r: u128)
    ensures
        is_floor_sqrt(n as int, r as int),
{
    let mut lo: u128 = 0;
    let mut hi: u128 = SQRT_SEARCH_BOUND;
    assert((SQRT_SEARCH_BOUND as int) * (SQRT_SEARCH_BOUND as int) > u128::MAX);
    while lo + 1 < hi
        invariant
            lo < hi,
            hi <= SQRT_SEARCH_BOUND,
            (lo as int) * (lo as int) <= n as int,
            (n as int) < (hi as int) * (hi as int),
        decreases hi - lo,
    {
        let mid: u128 = lo + (hi - lo) / 2;
        assert((mid as int) * (mid as int) <= u128::MAX) by (nonlinear_arith)
            requires
                mid < 0x1_0000_0000_0000_0000u128,
        ;
        if mid * mid <= n {
            lo = mid;
        } else {
            hi = mid;
        }
    }
    lo
}

} // verus!
