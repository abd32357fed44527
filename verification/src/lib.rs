//! Core of a constant-product automated market maker: a two-asset pool
//! whose deposits, redemptions and swaps are computed with exact integer
//! arithmetic and verified contracts.
//!
//! The library is the pricing and accounting engine only. It is stateless:
//! every operation is a pure function of the current reserve balances and
//! claim-token supply, read from the host ledger, together with the caller's
//! inputs. The host applies the resulting transfers, mints and burns.

mod errors;
mod laws;
mod liquidity;
mod math;
mod pool;
mod swap;

pub use crate::errors::ErrorCode;
pub use crate::laws::lemma_deposit_redeem_round_trip;
pub use crate::laws::lemma_swap_product_non_decreasing;
pub use crate::liquidity::add_liquidity;
pub use crate::liquidity::remove_liquidity;
pub use crate::liquidity::spec_lp_to_mint;
pub use crate::liquidity::spec_required_b;
pub use crate::liquidity::spec_withdraw_amount;
pub use crate::math::is_floor_sqrt;
pub use crate::math::lemma_floor_sqrt_unique;
pub use crate::pool::initialize_pool;
pub use crate::pool::Pool;
pub use crate::swap::lemma_after_fee_positive;
pub use crate::swap::spec_amount_in_after_fee;
pub use crate::swap::spec_fee;
pub use crate::swap::spec_swap_out;
pub use crate::swap::swap;
pub use crate::swap::FEE_DENOMINATOR;
pub use crate::swap::FEE_RATE;
