use crate::error::PoolError;
use crate::helper::{lemma_scaled_at_most, xy_from_l};
use crate::pool::Pool;
use vstd::prelude::*;

verus! {

/// What a withdrawal reads and changes: the pool record and its two vault balances.
#[derive(Clone, Copy, Debug)]
pub struct Withdraw {
    pub pool: Pool,
    pub vault_x: u64,
    pub vault_y: u64,
}

impl Withdraw {
    /// The result of burning `amount` shares: `(return_x, return_y)`, the
    /// pro-rata part of each reserve, or why it is refused.
    pub open spec fn withdraw_outcome(self, amount: int) -> Result<(u64, u64), PoolError> {
        if self.pool.locked {
            Err(PoolError::PoolIsLocked)
        } else if amount == 0 || amount > self.pool.lp_supply {
            Err(PoolError::InvalidAmount)
        } else {
            Ok(
                (
                    (self.vault_x * amount / self.pool.lp_supply as int) as u64,
                    (self.vault_y * amount / self.pool.lp_supply as int) as u64,
                ),
            )
        }
    }

    /// The state after `amount` shares are burnt and `x`, `y` leave the vaults.
    pub open spec fn withdrawn(self, amount: u64, x: u64, y: u64) -> Withdraw {
        Withdraw {
            pool: Pool { lp_supply: (self.pool.lp_supply - amount) as u64, ..self.pool },
            vault_x: (self.vault_x - x) as u64,
            vault_y: (self.vault_y - y) as u64,
        }
    }

    /// Burns `amount` shares and pays out their pro-rata part of both
    /// reserves. Returns the amounts paid; on any error nothing changes.
    pub fn withdraw(&mut self, amount: u64) -> (r: Result<(u64, u64), PoolError>)
        ensures
            r == old(self).withdraw_outcome(amount as int),
            r matches Ok(t) ==> *final(self) == old(self).withdrawn(amount, t.0, t.1),
            r is Err ==> *final(self) == *old(self),
    {
        if self.pool.locked {
            return Err(PoolError::PoolIsLocked);
        }
        if amount == 0 || amount > self.pool.lp_supply {
            return Err(PoolError::InvalidAmount);
        }
        let total_lp_supply = self.pool.lp_supply;
        proof {
            lemma_scaled_at_most(amount as int, self.vault_x as int, total_lp_supply as int);
            lemma_scaled_at_most(amount as int, self.vault_y as int, total_lp_supply as int);
            assert(self.vault_x * amount == amount * self.vault_x) by (nonlinear_arith);
            assert(self.vault_y * amount == amount * self.vault_y) by (nonlinear_arith);
        }
        let (return_x, return_y) = match xy_from_l(
            total_lp_supply,
            self.vault_x,
            self.vault_y,
            amount,
        ) {
            Ok(v) => v,
            Err(e) => return Err(e),
        };
        if let Err(e) = self.burn_tokens(amount) {
            return Err(e);
        }
        if let Err(e) = self.withdraw_tokens(true, return_x) {
            return Err(e);
        }
        if let Err(e) = self.withdraw_tokens(false, return_y) {
            return Err(e);
        }
        self.pool.lp_supply = total_lp_supply - amount;
        Ok((return_x, return_y))
    }

    /// Checks that `token_amount` shares can be burnt: no more than are
    /// outstanding. The burn itself belongs to the token ledger, and the
    /// record's supply is lowered by the caller once the withdrawal is paid,
    /// so the record is left as it is.
    pub fn burn_tokens(&mut self, token_amount: u64) -> (r: Result<(), PoolError>)
        ensures
            token_amount > old(self).pool.lp_supply <==> r is Err,
            r is Err ==> r == Err::<(), PoolError>(PoolError::InvalidAmount),
            *final(self) == *old(self),
    {
        if token_amount > self.pool.lp_supply {
            return Err(PoolError::InvalidAmount);
        }
        Ok(())
    }

    /// Pays `amount` out of the vault of X (`is_x`) or of Y; refuses more
    /// than the vault holds.
    pub fn withdraw_tokens(&mut self, is_x: bool, amount: u64) -> (r: Result<(), PoolError>)
        ensures
            is_x ==> (amount > old(self).vault_x <==> r is Err),
            !is_x ==> (amount > old(self).vault_y <==> r is Err),
            r is Err ==> r == Err::<(), PoolError>(PoolError::InvalidAmount) && *final(self)
                == *old(self),
            r is Ok && is_x ==> *final(self) == (Withdraw {
                vault_x: (old(self).vault_x - amount) as u64,
                ..*old(self)
            }),
            r is Ok && !is_x ==> *final(self) == (Withdraw {
                vault_y: (old(self).vault_y - amount) as u64,
                ..*old(self)
            }),
    {
        if is_x {
            if amount > self.vault_x {
                return Err(PoolError::InvalidAmount);
            }
            self.vault_x = self.vault_x - amount;
        } else {
            if amount > self.vault_y {
                return Err(PoolError::InvalidAmount);
            }
            self.vault_y = self.vault_y - amount;
        }
        Ok(())
    }
}

} // verus!
