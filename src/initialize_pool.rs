use crate::error::PoolError;
use crate::pool::{Pool, Pubkey, MAX_FEE_BP};
use vstd::prelude::*;

verus! {

/// The accounts a new pool is created over.
#[derive(Clone, Copy, Debug)]
pub struct Initialize {
    pub authority: Pubkey,
    pub mint_x: Pubkey,
    pub mint_y: Pubkey,
    pub ata_x: Pubkey,
    pub ata_y: Pubkey,
    pub lp_token_mint: Pubkey,
    pub pool_bump: u8,
    pub lp_bump: u8,
}

impl Initialize {
    /// The record of a fresh pool over these accounts: no shares issued, no
    /// fees accrued, unlocked.
    pub open spec fn new_pool(self, fee_bp: u16) -> Pool {
        Pool {
            authority: self.authority,
            mint_x: self.mint_x,
            mint_y: self.mint_y,
            ata_x: self.ata_x,
            ata_y: self.ata_y,
            lp_mint: self.lp_token_mint,
            lp_supply: 0,
            fee_bp: fee_bp,
            fee_collected_x: 0,
            fee_collected_y: 0,
            pool_bump: self.pool_bump,
            lp_bump: self.lp_bump,
            locked: false,
        }
    }

    /// Creates the pool record with fee `fee_bp` in basis points. The
    /// `lp_supply` given is informational only: no shares are minted, and the
    /// record starts with none issued, so the first deposit is the initial
    /// mint. A fee of one hundred percent or more is refused.
    #[allow(unused_variables)]
    pub fn initialize_pool(&self, fee_bp: u16, lp_supply: u64) -> (r: Result<Pool, PoolError>)
        ensures
            fee_bp >= MAX_FEE_BP <==> r is Err,
            r is Err ==> r == Err::<Pool, PoolError>(PoolError::InvalidAmount),
            r matches Ok(p) ==> p.wf() && p == self.new_pool(fee_bp),
    {
        if fee_bp >= MAX_FEE_BP {
            return Err(PoolError::InvalidAmount);
        }
        Ok(
            Pool {
                authority: self.authority,
                mint_x: self.mint_x,
                mint_y: self.mint_y,
                ata_x: self.ata_x,
                ata_y: self.ata_y,
                lp_mint: self.lp_token_mint,
                lp_supply: 0,
                fee_bp,
                fee_collected_x: 0,
                fee_collected_y: 0,
                pool_bump: self.pool_bump,
                lp_bump: self.lp_bump,
                locked: false,
            },
        )
    }
}

} // verus!
