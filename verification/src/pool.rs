use vstd::prelude::*;

verus! {

/// The persistent pool record: identifiers of the two reserve assets, the
/// handles of the two reserve holdings on the external ledger, the
/// identifier of the claim-token issuance, and the derivation seed that
/// lets the pool authorize effects on its own holdings. All fields are set
/// once at creation and never change; balances and supply live on the
/// external ledger and are re-read at every operation.
#[derive(Clone, Copy, Debug, PartialEq, Eq, Structural)]
pub struct Pool {
    /// Identifier of reserve asset A.
    pub mint_a: u64,
    /// Identifier of reserve asset B.
    pub mint_b: u64,
    /// Handle of the ledger holding that stores the pool's asset-A reserve.
    pub token_vault_a: u64,
    /// Handle of the ledger holding that stores the pool's asset-B reserve.
    pub token_vault_b: u64,
    /// Identifier of the pool's claim-token issuance.
    pub lp_mint: u64,
    /// Derivation seed of the pool's authority over its own holdings.
    pub bump: u8,
}

impl Pool {
    /// A well-formed pool record pairs two distinct assets.
    pub open spec fn wf(self) -> bool {
        self.mint_a != self.mint_b
    }
}

/// Creates the pool record for an ordered pair of distinct assets, binding
/// it to the given reserve handles, claim-token issuance and authority
/// seed. The record is immutable from here on; the host ledger is the one
/// to create the empty holdings and the zero-supply issuance, and to
/// refuse a second pool for the same ordered pair.
pub fn initialize_pool(
    mint_a: u64,
    mint_b: u64,
    token_vault_a: u64,
    token_vault_b: u64,
    lp_mint: u64,
    bump: u8,
) -> (p: Pool)
    requires
        mint_a != mint_b,
    ensures
        p == (Pool { mint_a, mint_b, token_vault_a, token_vault_b, lp_mint, bump }),
        p.wf(),
{
    Pool { mint_a, mint_b, token_vault_a, token_vault_b, lp_mint, bump }
}

} // verus!
