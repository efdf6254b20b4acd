use vstd::prelude::*;

verus! {

/// An opaque 32-byte identifier of an account or a token kind.
pub type Pubkey = [u8; 32];

/// The largest fee, exclusive, in basis points: a fee below one hundred percent.
pub const MAX_FEE_BP: u16 = 10000;

/// The ledger record of one pool. The reserves themselves are the balances of
/// the two vault accounts, held beside this record.
#[derive(Clone, Copy, Debug)]
pub struct Pool {
    pub authority: Pubkey,
    pub mint_x: Pubkey,
    pub mint_y: Pubkey,
    pub ata_x: Pubkey,
    pub ata_y: Pubkey,
    pub lp_mint: Pubkey,
    /// The pool shares outstanding.
    pub lp_supply: u64,
    /// The swap fee in basis points.
    pub fee_bp: u16,
    /// Fees accrued on swaps that paid in asset X.
    pub fee_collected_x: u64,
    /// Fees accrued on swaps that paid in asset Y.
    pub fee_collected_y: u64,
    pub pool_bump: u8,
    pub lp_bump: u8,
    /// When set, deposits, swaps and withdrawals are refused.
    pub locked: bool,
}

impl Pool {
    /// The pool's fee stays below one hundred percent.
    pub open spec fn wf(&self) -> bool {
        self.fee_bp < MAX_FEE_BP
    }
}

/// Shares exist exactly when reserves do.
pub open spec fn reserves_consistent(lp_supply: int, vault_x: int, vault_y: int) -> bool {
    (lp_supply == 0) <==> (vault_x == 0 && vault_y == 0)
}

} // verus!
