//! Arithmetic and invariant core of a two-asset constant-product liquidity pool.
//!
//! The pool record, the vault balances and the share supply are plain values;
//! every operation computes the token movements from them, checks the pool's
//! rules, and either applies the whole change or leaves everything untouched.
use crate::error::PoolError;
use crate::initialize_pool::Initialize;
use crate::pool::{Pool, MAX_FEE_BP};
use crate::provide_liquidity::ProvideLiquidity;
use crate::swap::SwapTokens;
use crate::withdraw::Withdraw;
use vstd::prelude::*;

pub mod error;
pub mod helper;
pub mod pool;
pub mod provide_liquidity;
pub mod swap;
pub mod withdraw;
pub mod initialize_pool;
pub mod proofs;

verus! {

/// Creates a pool over the accounts of `ctx` with a fee of `fee` basis points;
/// `lp_supply` is informational and mints nothing.
pub fn initialize_pool(ctx: &Initialize, fee: u16, lp_supply: u64) -> (r: Result<Pool, PoolError>)
    ensures
        fee >= MAX_FEE_BP <==> r is Err,
        r is Err ==> r == Err::<Pool, PoolError>(PoolError::InvalidAmount),
        r matches Ok(p) ==> p.wf() && p == ctx.new_pool(fee),
{
    ctx.initialize_pool(fee, lp_supply)
}

/// Deposits at most `max_x_token` of X and `max_y_token` of Y into the pool of `ctx`.
pub fn provide_liquidity(ctx: &mut ProvideLiquidity, max_x_token: u64, max_y_token: u64) -> (r:
    Result<(u64, u64, u64), PoolError>)
    ensures
        r == old(ctx).deposit_outcome(max_x_token as int, max_y_token as int),
        r matches Ok(t) ==> *final(ctx) == old(ctx).deposited(t.0, t.1, t.2),
        r is Err ==> *final(ctx) == *old(ctx),
{
    ctx.deposit_tokens(max_x_token, max_y_token)
}

/// Swaps `amount_in` of X (`is_x`) or of Y in the pool of `ctx`.
pub fn swap(ctx: &mut SwapTokens, amount_in: u64, amount_out_min: u64, is_x: bool) -> (r: Result<
    (u64, u64),
    PoolError,
>)
    ensures
        r == old(ctx).swap_result(amount_in as int, amount_out_min as int, is_x),
        r matches Ok(t) ==> *final(ctx) == old(ctx).swapped(amount_in, is_x, t.0, t.1),
        r is Err ==> *final(ctx) == *old(ctx),
        r is Ok && old(ctx).pool.fee_bp > 0 ==> final(ctx).vault_x * final(ctx).vault_y
            >= old(ctx).vault_x * old(ctx).vault_y,
{
    ctx.swap(amount_in, amount_out_min, is_x)
}

/// Burns `amount` shares from the pool of `ctx` and pays out their part of the reserves.
pub fn withdraw(ctx: &mut Withdraw, amount: u64) -> (r: Result<(u64, u64), PoolError>)
    ensures
        r == old(ctx).withdraw_outcome(amount as int),
        r matches Ok(t) ==> *final(ctx) == old(ctx).withdrawn(amount, t.0, t.1),
        r is Err ==> *final(ctx) == *old(ctx),
{
    ctx.withdraw(amount)
}

} // verus!
