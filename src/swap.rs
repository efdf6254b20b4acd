use crate::error::PoolError;
use crate::helper::{compute_swap, swap_outcome};
use crate::pool::Pool;
use vstd::prelude::*;

verus! {

/// What a swap reads and changes: the pool record and its two vault balances.
#[derive(Clone, Copy, Debug)]
pub struct SwapTokens {
    pub pool: Pool,
    pub vault_x: u64,
    pub vault_y: u64,
}

impl SwapTokens {
    /// The balance of the vault that receives the input.
    pub open spec fn vault_in(self, is_x: bool) -> u64 {
        if is_x {
            self.vault_x
        } else {
            self.vault_y
        }
    }

    /// The balance of the vault that pays the output.
    pub open spec fn vault_out(self, is_x: bool) -> u64 {
        if is_x {
            self.vault_y
        } else {
            self.vault_x
        }
    }

    /// The fees accrued so far in the input asset.
    pub open spec fn fee_collected_in(self, is_x: bool) -> u64 {
        if is_x {
            self.pool.fee_collected_x
        } else {
            self.pool.fee_collected_y
        }
    }

    /// The result of a swap: `(amount_out, fee)` or why it is refused.
    pub open spec fn swap_result(self, amount_in: int, amount_out_min: int, is_x: bool) -> Result<
        (u64, u64),
        PoolError,
    > {
        if self.pool.locked {
            Err(PoolError::PoolIsLocked)
        } else if self.vault_x == 0 || self.vault_y == 0 {
            Err(PoolError::DivisionByZero)
        } else {
            match swap_outcome(
                self.vault_in(is_x) as int,
                self.vault_out(is_x) as int,
                amount_in,
                self.pool.fee_bp as int,
            ) {
                Err(e) => Err(e),
                Ok((out, fee)) => if out < amount_out_min {
                    Err(PoolError::SlippageExceeded)
                } else if self.vault_in(is_x) + amount_in > u64::MAX || self.fee_collected_in(
                    is_x,
                ) + fee > u64::MAX {
                    Err(PoolError::OverFlowError)
                } else {
                    Ok((out, fee))
                },
            }
        }
    }

    /// The state after the whole input, fee included, enters its vault,
    /// `out` leaves the other, and `fee` is accrued for the input asset.
    pub open spec fn swapped(self, amount_in: u64, is_x: bool, out: u64, fee: u64) -> SwapTokens {
        if is_x {
            SwapTokens {
                pool: Pool { fee_collected_x: (self.pool.fee_collected_x + fee) as u64, ..self.pool },
                vault_x: (self.vault_x + amount_in) as u64,
                vault_y: (self.vault_y - out) as u64,
            }
        } else {
            SwapTokens {
                pool: Pool { fee_collected_y: (self.pool.fee_collected_y + fee) as u64, ..self.pool },
                vault_x: (self.vault_x - out) as u64,
                vault_y: (self.vault_y + amount_in) as u64,
            }
        }
    }

    /// Swaps `amount_in` of X (`is_x`) or of Y for the other asset, at the
    /// constant product less the pool's fee, refusing an output below
    /// `amount_out_min`. Returns the output and the fee; on any error
    /// nothing changes.
    pub fn swap(&mut self, amount_in: u64, amount_out_min: u64, is_x: bool) -> (r: Result<
        (u64, u64),
        PoolError,
    >)
        ensures
            r == old(self).swap_result(amount_in as int, amount_out_min as int, is_x),
            r matches Ok(t) ==> *final(self) == old(self).swapped(amount_in, is_x, t.0, t.1),
            r is Err ==> *final(self) == *old(self),
            r is Ok && old(self).pool.fee_bp > 0 ==> final(self).vault_x * final(self).vault_y
                >= old(self).vault_x * old(self).vault_y,
    {
        if self.pool.locked {
            return Err(PoolError::PoolIsLocked);
        }
        if self.vault_x == 0 || self.vault_y == 0 {
            return Err(PoolError::DivisionByZero);
        }
        let (vault_in, vault_out, fee_collected) = if is_x {
            (self.vault_x, self.vault_y, self.pool.fee_collected_x)
        } else {
            (self.vault_y, self.vault_x, self.pool.fee_collected_y)
        };
        let (amount_out, swap_fee) = match compute_swap(
            vault_in,
            vault_out,
            amount_in,
            self.pool.fee_bp,
        ) {
            Ok(v) => v,
            Err(e) => return Err(e),
        };
        if amount_out < amount_out_min {
            return Err(PoolError::SlippageExceeded);
        }
        if vault_in.checked_add(amount_in).is_none() || fee_collected.checked_add(
            swap_fee,
        ).is_none() {
            return Err(PoolError::OverFlowError);
        }
        if is_x {
            self.pool.fee_collected_x = fee_collected + swap_fee;
        } else {
            self.pool.fee_collected_y = fee_collected + swap_fee;
        }
        self.deposit_tokens_from_user(is_x, amount_in);
        self.deposit_tokens_to_user(is_x, amount_out);
        proof {
            let (vin, vout) = (vault_in as int, vault_out as int);
            let (nin, nout) = ((vin + amount_in) as int, (vout - amount_out) as int);
            assert(vout * vin == vin * vout && nout * nin == nin * nout) by (nonlinear_arith);
        }
        Ok((amount_out, swap_fee))
    }

    /// Credits the user's input to the vault of X (`is_x`) or of Y.
    fn deposit_tokens_from_user(&mut self, is_x: bool, amount: u64)
        requires
            old(self).vault_in(is_x) + amount <= u64::MAX,
        ensures
            is_x ==> *final(self) == (SwapTokens {
                vault_x: (old(self).vault_x + amount) as u64,
                ..*old(self)
            }),
            !is_x ==> *final(self) == (SwapTokens {
                vault_y: (old(self).vault_y + amount) as u64,
                ..*old(self)
            }),
    {
        if is_x {
            self.vault_x = self.vault_x + amount;
        } else {
            self.vault_y = self.vault_y + amount;
        }
    }

    /// Pays the user's output from the vault opposite the input side `is_x`.
    fn deposit_tokens_to_user(&mut self, is_x: bool, amount: u64)
        requires
            amount <= old(self).vault_out(is_x),
        ensures
            is_x ==> *final(self) == (SwapTokens {
                vault_y: (old(self).vault_y - amount) as u64,
                ..*old(self)
            }),
            !is_x ==> *final(self) == (SwapTokens {
                vault_x: (old(self).vault_x - amount) as u64,
                ..*old(self)
            }),
    {
        if is_x {
            self.vault_y = self.vault_y - amount;
        } else {
            self.vault_x = self.vault_x - amount;
        }
    }
}

} // verus!
