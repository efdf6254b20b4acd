use crate::error::PoolError;
use integer_sqrt::IntegerSquareRoot;
use vstd::arithmetic::div_mod::{lemma_fundamental_div_mod, lemma_mod_bound};
use vstd::prelude::*;

verus! {

/// `floor(a * b / c)` over the integers, or the error that stops it.
pub open spec fn mul_div_outcome(a: int, b: int, c: int) -> Result<u64, PoolError> {
    if c == 0 {
        Err(PoolError::DivisionByZero)
    } else if a * b / c > u64::MAX {
        Err(PoolError::OverFlowError)
    } else {
        Ok((a * b / c) as u64)
    }
}

/// `r` is the floor of the square root of `n`.
pub open spec fn is_floor_sqrt(r: int, n: int) -> bool {
    0 <= r && r * r <= n && n < (r + 1) * (r + 1)
}

/// The floor of the square root of `n`.
pub open spec fn sqrt_floor(n: int) -> int {
    choose|r: int| is_floor_sqrt(r, n)
}

/// A floor square root is unique, so a witness of it is `sqrt_floor`.
pub proof fn lemma_floor_sqrt_unique(r: int, n: int)
    requires
        is_floor_sqrt(r, n),
    ensures
        sqrt_floor(n) == r,
{
    let c = sqrt_floor(n);
    assert(is_floor_sqrt(c, n));
    if c < r {
        assert((c + 1) * (c + 1) <= r * r) by (nonlinear_arith)
            requires
                0 <= c < r,
        ;
    } else if r < c {
        assert((r + 1) * (r + 1) <= c * c) by (nonlinear_arith)
            requires
                0 <= r < c,
        ;
    }
}

/// The product of two 64-bit quantities always fits in 128 bits.
pub proof fn lemma_u64_product_fits(a: u64, b: u64)
    ensures
        0 <= (a as int) * (b as int) <= u64::MAX as int * u64::MAX as int,
        (a as int) * (b as int) <= u128::MAX,
{
    assert(0 <= (a as int) * (b as int) <= u64::MAX as int * u64::MAX as int) by (nonlinear_arith)
        requires
            0 <= a as int <= u64::MAX as int,
            0 <= b as int <= u64::MAX as int,
    ;
}

/// Relies on `integer_sqrt::IntegerSquareRoot::integer_sqrt` for `u128`, which
/// returns the largest integer whose square does not exceed its argument.
#[verifier::external_body]
fn floor_sqrt(n: u128) -> (r: u128)
    ensures
        is_floor_sqrt(r as int, n as int),
{
    n.integer_sqrt()
}

/// Multiplies two 64-bit quantities in 128 bits and divides by a third,
/// rounding down; the result must fit in 64 bits.
pub fn mul_div(a: u64, b: u64, c: u64) -> (r: Result<u64, PoolError>)
    ensures
        r == mul_div_outcome(a as int, b as int, c as int),
{
    if c == 0 {
        return Err(PoolError::DivisionByZero);
    }
    proof {
        lemma_u64_product_fits(a, b);
    }
    let product: u128 = (a as u128) * (b as u128);
    let quotient: u128 = product / (c as u128);
    if quotient > u64::MAX as u128 {
        Err(PoolError::OverFlowError)
    } else {
        Ok(quotient as u64)
    }
}

/// The number of shares minted by the first deposit into an empty pool:
/// the floor of the square root of the product of the two amounts.
pub fn get_lp_token_amount_init(x_tokens: u64, y_tokens: u64) -> (r: Result<u64, PoolError>)
    ensures
        r matches Ok(l) && l as int == sqrt_floor(x_tokens as int * y_tokens as int),
{
    proof {
        lemma_u64_product_fits(x_tokens, y_tokens);
    }
    let product: u128 = (x_tokens as u128) * (y_tokens as u128);
    let root: u128 = floor_sqrt(product);
    proof {
        if root > u64::MAX as u128 {
            assert((root as int) * (root as int) > u64::MAX as int * u64::MAX as int)
                by (nonlinear_arith)
                requires
                    root as int > u64::MAX as int,
            ;
        }
        lemma_floor_sqrt_unique(root as int, product as int);
    }
    Ok(root as u64)
}

/// Shares minted for a deposit of at most `max_x_token` and `max_y_token`
/// into a pool holding `vault_x` and `vault_y` with `lp_supply` shares out:
/// the smaller of the two ratio-implied amounts, or the first error met.
/// An empty vault is refused before any ratio is taken.
pub open spec fn lp_mint_outcome(
    lp_supply: int,
    vault_x: int,
    vault_y: int,
    max_x_token: int,
    max_y_token: int,
) -> Result<u64, PoolError> {
    if vault_x == 0 || vault_y == 0 {
        Err(PoolError::DivisionByZero)
    } else { match mul_div_outcome(max_x_token, lp_supply, vault_x) {
        Err(e) => Err(e),
        Ok(lp_x) => match mul_div_outcome(max_y_token, lp_supply, vault_y) {
            Err(e) => Err(e),
            Ok(lp_y) => Ok(if lp_x <= lp_y { lp_x } else { lp_y }),
        },
    } }
}

/// The reserves that `lp_amount` shares stand for, out of `lp_supply`,
/// in a pool holding `vault_x` and `vault_y`.
pub open spec fn shares_outcome(lp_supply: int, vault_x: int, vault_y: int, lp_amount: int) -> Result<
    (u64, u64),
    PoolError,
> {
    match mul_div_outcome(vault_x, lp_amount, lp_supply) {
        Err(e) => Err(e),
        Ok(x) => match mul_div_outcome(vault_y, lp_amount, lp_supply) {
            Err(e) => Err(e),
            Ok(y) => Ok((x, y)),
        },
    }
}

/// Shares to mint so that a deposit keeps the pool's ratio: the limiting
/// side of the two maxima decides.
pub fn get_lp_tokens_to_mint(
    lp_supply: u64,
    vault_x: u64,
    vault_y: u64,
    max_x_token: u64,
    max_y_token: u64,
) -> (r: Result<u64, PoolError>)
    ensures
        r == lp_mint_outcome(
            lp_supply as int,
            vault_x as int,
            vault_y as int,
            max_x_token as int,
            max_y_token as int,
        ),
{
    if vault_x == 0 || vault_y == 0 {
        return Err(PoolError::DivisionByZero);
    }
    let lp_x = match mul_div(max_x_token, lp_supply, vault_x) {
        Ok(v) => v,
        Err(e) => return Err(e),
    };
    let lp_y = match mul_div(max_y_token, lp_supply, vault_y) {
        Ok(v) => v,
        Err(e) => return Err(e),
    };
    if lp_x <= lp_y {
        Ok(lp_x)
    } else {
        Ok(lp_y)
    }
}

/// The amounts of each reserve that `lp_amount` shares stand for.
pub fn xy_from_l(lp_supply: u64, vault_x: u64, vault_y: u64, lp_amount: u64) -> (r: Result<
    (u64, u64),
    PoolError,
>)
    ensures
        r == shares_outcome(lp_supply as int, vault_x as int, vault_y as int, lp_amount as int),
{
    let required_x = match mul_div(vault_x, lp_amount, lp_supply) {
        Ok(v) => v,
        Err(e) => return Err(e),
    };
    let required_y = match mul_div(vault_y, lp_amount, lp_supply) {
        Ok(v) => v,
        Err(e) => return Err(e),
    };
    Ok((required_x, required_y))
}

/// The basis-point denominator of the swap fee.
pub const BASIS_POINTS: u64 = 10000;

/// The output and fee of swapping `amount_in` into a pool side holding
/// `vault_in` against one holding `vault_out`, at `fee_bp` basis points,
/// or the first error met. Where the fee is above zero, a swap whose floor
/// rounding would lower the product of the two sides is refused: with
/// `k = vault_in * vault_out` and `n` the input side net of the fee, the new
/// product is `k - k % n + fee * (k / n)`.
pub open spec fn swap_outcome(vault_in: int, vault_out: int, amount_in: int, fee_bp: int) -> Result<
    (u64, u64),
    PoolError,
> {
    match mul_div_outcome(amount_in, fee_bp, BASIS_POINTS as int) {
        Err(e) => Err(e),
        Ok(fee) => if fee > amount_in {
            Err(PoolError::OverFlowError)
        } else if vault_in + (amount_in - fee) > u64::MAX {
            Err(PoolError::OverFlowError)
        } else if vault_in + (amount_in - fee) == 0 {
            Err(PoolError::DivisionByZero)
        } else if fee_bp > 0 && fee * (vault_in * vault_out / (vault_in + (amount_in - fee))) < (
        vault_in * vault_out) % (vault_in + (amount_in - fee)) {
            Err(PoolError::InvalidAmount)
        } else {
            Ok(
                (
                    (vault_out - vault_in * vault_out / (vault_in + (amount_in - fee))) as u64,
                    fee,
                ),
            )
        },
    }
}

/// Floor division brackets its numerator: `d * (x / d) <= x < d * (x / d) + d`.
pub proof fn lemma_div_bracket(x: int, d: int)
    requires
        0 <= x,
        0 < d,
    ensures
        0 <= x / d,
        d * (x / d) <= x < d * (x / d) + d,
{
    lemma_fundamental_div_mod(x, d);
    lemma_mod_bound(x, d);
    assert(0 <= x / d) by (nonlinear_arith)
        requires
            x == d * (x / d) + x % d,
            0 <= x % d < d,
            0 <= x,
            0 < d,
    ;
}

/// Scaling `b` by a fraction `a / n` no greater than one never exceeds `b`.
pub proof fn lemma_scaled_at_most(a: int, b: int, n: int)
    requires
        0 <= a <= n,
        0 < n,
        0 <= b,
    ensures
        0 <= a * b / n <= b,
{
    assert(0 <= a * b) by (nonlinear_arith)
        requires
            0 <= a,
            0 <= b,
    ;
    lemma_div_bracket(a * b, n);
    assert(a * b / n <= b) by (nonlinear_arith)
        requires
            n * (a * b / n) <= a * b,
            0 <= a <= n,
            0 < n,
            0 <= b,
    ;
}

/// The constant-product swap: the fee is taken from the input in basis
/// points, the rest enters the input side, and the output side keeps
/// `floor(k / new_input_side)`; returns the output amount and the fee.
pub fn compute_swap(vault_in: u64, vault_out: u64, amount_in: u64, fee_bp: u16) -> (r: Result<
    (u64, u64),
    PoolError,
>)
    ensures
        r == swap_outcome(vault_in as int, vault_out as int, amount_in as int, fee_bp as int),
        r matches Ok(t) ==> t.0 <= vault_out && t.1 <= amount_in,
        r matches Ok(t) ==> (fee_bp > 0 ==> (vault_in + amount_in) * (vault_out - t.0) >= vault_in
            * vault_out),
{
    let fee = match mul_div(amount_in, fee_bp as u64, BASIS_POINTS) {
        Ok(v) => v,
        Err(e) => return Err(e),
    };
    if fee > amount_in {
        return Err(PoolError::OverFlowError);
    }
    let amount_after_fee: u64 = amount_in - fee;
    proof {
        lemma_u64_product_fits(vault_in, vault_out);
    }
    let k: u128 = (vault_in as u128) * (vault_out as u128);
    let new_vault_in: u64 = match vault_in.checked_add(amount_after_fee) {
        Some(v) => v,
        None => return Err(PoolError::OverFlowError),
    };
    if new_vault_in == 0 {
        return Err(PoolError::DivisionByZero);
    }
    let quotient: u128 = k / (new_vault_in as u128);
    proof {
        lemma_scaled_at_most(vault_in as int, vault_out as int, new_vault_in as int);
    }
    if quotient > vault_out as u128 {
        return Err(PoolError::OverFlowError);
    }
    let new_vault_out: u64 = quotient as u64;
    proof {
        lemma_u64_product_fits(fee, new_vault_out);
    }
    let remainder: u128 = k % (new_vault_in as u128);
    if fee_bp > 0 && (fee as u128) * quotient < remainder {
        return Err(PoolError::InvalidAmount);
    }
    proof {
        lemma_fundamental_div_mod(k as int, new_vault_in as int);
        assert((vault_in + amount_in) * quotient == k - remainder + fee * quotient)
            by (nonlinear_arith)
            requires
                k as int == new_vault_in * quotient + remainder,
                new_vault_in == vault_in + amount_in - fee,
        ;
    }
    let amount_out: u64 = vault_out - new_vault_out;
    Ok((amount_out, fee))
}

/// Shares no more than the ratio-implied amount for `max` stand for no
/// more than `max` of that reserve.
pub proof fn lemma_shares_within_max(supply: int, vault: int, max: int, l: int)
    requires
        0 < supply,
        0 < vault,
        0 <= max,
        0 <= l <= max * supply / vault,
    ensures
        0 <= vault * l / supply <= max,
{
    assert(0 <= max * supply) by (nonlinear_arith)
        requires
            0 <= max,
            0 < supply,
    ;
    lemma_div_bracket(max * supply, vault);
    assert(0 <= vault * l) by (nonlinear_arith)
        requires
            0 < vault,
            0 <= l,
    ;
    lemma_div_bracket(vault * l, supply);
    let q = max * supply / vault;
    assert(vault * l <= max * supply) by (nonlinear_arith)
        requires
            l <= q,
            vault * q <= max * supply,
            0 < vault,
    ;
    assert(vault * l / supply <= max) by (nonlinear_arith)
        requires
            supply * (vault * l / supply) <= vault * l,
            vault * l <= max * supply,
            0 < supply,
    ;
}

} // verus!
