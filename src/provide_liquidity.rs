use crate::error::PoolError;
use crate::helper::{
    get_lp_token_amount_init, get_lp_tokens_to_mint, lemma_shares_within_max, lp_mint_outcome, shares_outcome, sqrt_floor,
    xy_from_l,
};
use crate::pool::Pool;
use vstd::prelude::*;

verus! {

/// What a deposit reads and changes: the pool record and its two vault balances.
#[derive(Clone, Copy, Debug)]
pub struct ProvideLiquidity {
    pub pool: Pool,
    pub vault_x: u64,
    pub vault_y: u64,
}

impl ProvideLiquidity {
    /// The amounts a deposit of at most `max_x` and `max_y` draws, and the
    /// shares it mints, before the pool's own checks: the initial mint on an
    /// empty pool, else the ratio-preserving mint.
    pub open spec fn deposit_quote(self, max_x: int, max_y: int) -> Result<(u64, u64, u64), PoolError> {
        if self.pool.lp_supply == 0 && self.vault_x == 0 && self.vault_y == 0 {
            Ok((max_x as u64, max_y as u64, sqrt_floor(max_x * max_y) as u64))
        } else {
            match lp_mint_outcome(
                self.pool.lp_supply as int,
                self.vault_x as int,
                self.vault_y as int,
                max_x,
                max_y,
            ) {
                Err(e) => Err(e),
                Ok(l) => match shares_outcome(
                    self.pool.lp_supply as int,
                    self.vault_x as int,
                    self.vault_y as int,
                    l as int,
                ) {
                    Err(e) => Err(e),
                    Ok((x, y)) => Ok((x, y, l)),
                },
            }
        }
    }

    /// The result of a deposit: `(debit_x, debit_y, minted)` or why it is refused.
    pub open spec fn deposit_outcome(self, max_x: int, max_y: int) -> Result<(u64, u64, u64), PoolError> {
        if self.pool.locked {
            Err(PoolError::PoolIsLocked)
        } else {
            match self.deposit_quote(max_x, max_y) {
                Err(e) => Err(e),
                Ok((x, y, l)) => if l == 0 {
                    Err(PoolError::LpTokenAmountCannotBeZero)
                } else if self.vault_x + x > u64::MAX || self.vault_y + y > u64::MAX
                    || self.pool.lp_supply + l > u64::MAX {
                    Err(PoolError::OverFlowError)
                } else {
                    Ok((x, y, l))
                },
            }
        }
    }

    /// The state after `x` and `y` enter the vaults and `l` shares are minted.
    pub open spec fn deposited(self, x: u64, y: u64, l: u64) -> ProvideLiquidity {
        ProvideLiquidity {
            pool: Pool { lp_supply: (self.pool.lp_supply + l) as u64, ..self.pool },
            vault_x: (self.vault_x + x) as u64,
            vault_y: (self.vault_y + y) as u64,
        }
    }

    /// Deposits at most `max_x_token` of X and `max_y_token` of Y, drawing
    /// both at the pool's current ratio, and mints the matching shares.
    /// Returns the amounts drawn and the shares minted; on any error
    /// nothing changes.
    pub fn deposit_tokens(&mut self, max_x_token: u64, max_y_token: u64) -> (r: Result<
        (u64, u64, u64),
        PoolError,
    >)
        ensures
            r == old(self).deposit_outcome(max_x_token as int, max_y_token as int),
            r matches Ok(t) ==> *final(self) == old(self).deposited(t.0, t.1, t.2),
            r is Err ==> *final(self) == *old(self),
    {
        if self.pool.locked {
            return Err(PoolError::PoolIsLocked);
        }
        let (x, y, amount) = if self.pool.lp_supply == 0 && self.vault_x == 0 && self.vault_y
            == 0 {
            let lp_tokens_to_mint = match get_lp_token_amount_init(max_x_token, max_y_token) {
                Ok(v) => v,
                Err(e) => return Err(e),
            };
            (max_x_token, max_y_token, lp_tokens_to_mint)
        } else {
            let total_lp_supply = self.pool.lp_supply;
            let lp_tokens_to_mint = match get_lp_tokens_to_mint(
                total_lp_supply,
                self.vault_x,
                self.vault_y,
                max_x_token,
                max_y_token,
            ) {
                Ok(v) => v,
                Err(e) => return Err(e),
            };
            let (required_x, required_y) = match xy_from_l(
                total_lp_supply,
                self.vault_x,
                self.vault_y,
                lp_tokens_to_mint,
            ) {
                Ok(v) => v,
                Err(e) => return Err(e),
            };
            proof {
                lemma_shares_within_max(
                    total_lp_supply as int,
                    self.vault_x as int,
                    max_x_token as int,
                    lp_tokens_to_mint as int,
                );
                lemma_shares_within_max(
                    total_lp_supply as int,
                    self.vault_y as int,
                    max_y_token as int,
                    lp_tokens_to_mint as int,
                );
            }
            (required_x, required_y, lp_tokens_to_mint)
        };
        if amount == 0 {
            return Err(PoolError::LpTokenAmountCannotBeZero);
        }
        if x > max_x_token || y > max_y_token {
            return Err(PoolError::SlippageExceeded);
        }
        if self.vault_x.checked_add(x).is_none() || self.vault_y.checked_add(y).is_none()
            || self.pool.lp_supply.checked_add(amount).is_none() {
            return Err(PoolError::OverFlowError);
        }
        self.token_depositor(true, x);
        self.token_depositor(false, y);
        self.mint_lp_tokens(amount);
        Ok((x, y, amount))
    }

    /// Credits `amount` to the vault of X (`is_x`) or of Y.
    fn token_depositor(&mut self, is_x: bool, amount: u64)
        requires
            is_x ==> old(self).vault_x + amount <= u64::MAX,
            !is_x ==> old(self).vault_y + amount <= u64::MAX,
        ensures
            is_x ==> *final(self) == (ProvideLiquidity {
                vault_x: (old(self).vault_x + amount) as u64,
                ..*old(self)
            }),
            !is_x ==> *final(self) == (ProvideLiquidity {
                vault_y: (old(self).vault_y + amount) as u64,
                ..*old(self)
            }),
    {
        if is_x {
            self.vault_x = self.vault_x + amount;
        } else {
            self.vault_y = self.vault_y + amount;
        }
    }

    /// Mints `amount` new shares.
    fn mint_lp_tokens(&mut self, amount: u64)
        requires
            old(self).pool.lp_supply + amount <= u64::MAX,
        ensures
            *final(self) == (ProvideLiquidity {
                pool: Pool { lp_supply: (old(self).pool.lp_supply + amount) as u64, ..old(self).pool },
                ..*old(self)
            }),
    {
        self.pool.lp_supply = self.pool.lp_supply + amount;
    }
}

} // verus!
