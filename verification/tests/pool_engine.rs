use cp_amm::add_liquidity;
use cp_amm::initialize_pool;
use cp_amm::remove_liquidity;
use cp_amm::swap;
use cp_amm::ErrorCode;
use cp_amm::FEE_DENOMINATOR;
use cp_amm::FEE_RATE;

#[test]
fn first_deposit_mints_geometric_mean() {
    assert_eq!(add_liquidity(1000, 4000, 0, 0, 0), Ok(2000));
    assert_eq!(add_liquidity(100, 100, 0, 0, 0), Ok(100));
    assert_eq!(add_liquidity(1, 1, 0, 0, 0), Ok(1));
}

#[test]
fn first_deposit_floors_inexact_root() {
    assert_eq!(add_liquidity(2, 8, 0, 0, 0), Ok(4));
    assert_eq!(add_liquidity(3, 5, 0, 0, 0), Ok(3));
    assert_eq!(add_liquidity(1, 2, 0, 0, 0), Ok(1));
}

#[test]
fn first_deposit_largest_amounts() {
    assert_eq!(add_liquidity(u64::MAX, u64::MAX, 0, 0, 0), Ok(u64::MAX));
    assert_eq!(add_liquidity(1, u64::MAX, 0, 0, 0), Ok(4294967295));
}

#[test]
fn deposit_must_match_pool_ratio() {
    assert_eq!(
        add_liquidity(100, 399, 1000, 4000, 2000),
        Err(ErrorCode::InvalidRatio)
    );
    assert_eq!(add_liquidity(100, 400, 1000, 4000, 2000), Ok(200));
}

#[test]
fn deposit_zero_amount_rejected() {
    assert_eq!(add_liquidity(0, 5, 0, 0, 0), Err(ErrorCode::ZeroAmount));
    assert_eq!(add_liquidity(5, 0, 0, 0, 0), Err(ErrorCode::ZeroAmount));
    assert_eq!(
        add_liquidity(0, 400, 1000, 4000, 2000),
        Err(ErrorCode::ZeroAmount)
    );
    assert_eq!(
        add_liquidity(100, 0, 1000, 4000, 2000),
        Err(ErrorCode::ZeroAmount)
    );
    assert_eq!(add_liquidity(0, 0, 0, 0, 0), Err(ErrorCode::ZeroAmount));
}

#[test]
fn deposit_mint_wider_than_native_rejected() {
    assert_eq!(
        add_liquidity(2, 2, 1, 1, u64::MAX),
        Err(ErrorCode::CalculationOverflow)
    );
}

#[test]
fn redemption_round_trip_returns_deposit() {
    assert_eq!(add_liquidity(100, 100, 0, 0, 0), Ok(100));
    assert_eq!(remove_liquidity(100, 100, 100, 100, 100), Ok((100, 100)));
    assert_eq!(add_liquidity(6, 24, 0, 0, 0), Ok(12));
    assert_eq!(remove_liquidity(12, 6, 24, 12, 12), Ok((6, 24)));
}

#[test]
fn redemption_pays_proportional_share() {
    assert_eq!(
        remove_liquidity(500, 1000, 4000, 2000, 1000),
        Ok((250, 1000))
    );
}

#[test]
fn redemption_zero_amount_rejected() {
    assert_eq!(
        remove_liquidity(0, 1000, 4000, 2000, 1000),
        Err(ErrorCode::ZeroAmount)
    );
    assert_eq!(remove_liquidity(0, 0, 0, 0, 0), Err(ErrorCode::ZeroAmount));
}

#[test]
fn redemption_against_empty_pool_rejected() {
    assert_eq!(
        remove_liquidity(5, 0, 0, 0, 5),
        Err(ErrorCode::InsufficientLiquidity)
    );
}

#[test]
fn redemption_beyond_balance_rejected() {
    assert_eq!(
        remove_liquidity(10, 100, 100, 100, 9),
        Err(ErrorCode::InsufficientLpTokens)
    );
}

#[test]
fn redemption_rounding_to_zero_rejected() {
    assert_eq!(
        remove_liquidity(1, 1, 1, 100, 1),
        Err(ErrorCode::ZeroWithdrawAmount)
    );
    assert_eq!(
        remove_liquidity(1, 1000, 1, 100, 1),
        Err(ErrorCode::ZeroWithdrawAmount)
    );
}

#[test]
fn redemption_wider_than_native_rejected() {
    assert_eq!(
        remove_liquidity(2, u64::MAX, u64::MAX, 1, 2),
        Err(ErrorCode::CalculationOverflow)
    );
}

#[test]
fn pool_record_keeps_creation_values() {
    let pool = initialize_pool(10, 20, 30, 40, 50, 255);
    assert_eq!(pool.mint_a, 10);
    assert_eq!(pool.mint_b, 20);
    assert_eq!(pool.token_vault_a, 30);
    assert_eq!(pool.token_vault_b, 40);
    assert_eq!(pool.lp_mint, 50);
    assert_eq!(pool.bump, 255);
}

#[test]
fn swap_pricing_with_fee() {
    assert_eq!(FEE_RATE, 1);
    assert_eq!(FEE_DENOMINATOR, 1000);
    let pool = initialize_pool(10, 20, 30, 40, 50, 255);
    // fee = 1, input after the fee = 999, out = 1000 * 999 / 1999 = 499.
    assert_eq!(swap(&pool, 10, 1000, 0, 1000, 1000), Ok(499));
    // An input of 100 pays no fee at the 0.1% rate: out = 1000 * 100 / 1100.
    assert_eq!(swap(&pool, 10, 100, 0, 1000, 1000), Ok(90));
}

#[test]
fn swap_slippage_boundary() {
    let pool = initialize_pool(10, 20, 30, 40, 50, 255);
    assert_eq!(
        swap(&pool, 10, 1000, 500, 1000, 1000),
        Err(ErrorCode::SlippageExceeded)
    );
    assert_eq!(swap(&pool, 10, 1000, 499, 1000, 1000), Ok(499));
}

#[test]
fn swap_zero_amount_rejected() {
    let pool = initialize_pool(10, 20, 30, 40, 50, 255);
    assert_eq!(swap(&pool, 10, 0, 0, 1000, 1000), Err(ErrorCode::ZeroAmount));
    assert_eq!(swap(&pool, 20, 0, 0, 0, 0), Err(ErrorCode::ZeroAmount));
}

#[test]
fn swap_prices_each_direction_from_its_reserve() {
    let pool = initialize_pool(10, 20, 30, 40, 50, 255);
    // Paying in asset A prices against (reserve_a, reserve_b)...
    assert_eq!(swap(&pool, 10, 1000, 0, 1000, 4000), Ok(1998));
    // ...and paying in asset B against (reserve_b, reserve_a).
    assert_eq!(swap(&pool, 20, 4000, 0, 1000, 4000), Ok(499));
}

#[test]
fn swap_against_empty_reserves_yields_nothing() {
    let pool = initialize_pool(10, 20, 30, 40, 50, 255);
    assert_eq!(swap(&pool, 10, 5, 0, 0, 0), Ok(0));
    assert_eq!(swap(&pool, 10, 5, 1, 0, 0), Err(ErrorCode::SlippageExceeded));
}

#[test]
fn swap_never_decreases_reserve_product() {
    let pool = initialize_pool(10, 20, 30, 40, 50, 255);
    let reserve_in: u64 = 1000;
    let reserve_out: u64 = 1000;
    let amount_in: u64 = 1000;
    let out = swap(&pool, 10, amount_in, 0, reserve_in, reserve_out).unwrap();
    let before = (reserve_in as u128) * (reserve_out as u128);
    let after = ((reserve_in + amount_in) as u128) * ((reserve_out - out) as u128);
    // The fee stays in the pool, so the product grows strictly here.
    assert!(after > before);
}
