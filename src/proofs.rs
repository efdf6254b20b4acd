//! Laws that relate the pool's operations, proved over their contracts.
use crate::error::PoolError;
use crate::helper::{
    lemma_div_bracket, lemma_floor_sqrt_unique, lemma_scaled_at_most, lemma_shares_within_max, swap_outcome,
};
use crate::pool::{reserves_consistent, Pool};
use crate::provide_liquidity::ProvideLiquidity;
use crate::swap::SwapTokens;
use crate::withdraw::Withdraw;
use vstd::arithmetic::div_mod::lemma_div_by_multiple;
use vstd::prelude::*;

verus! {

/// A deposit into a funded pool draws each asset in proportion to the
/// shares it mints, up to floor rounding: `dx / vx` and `dy / vy` fall within
/// one unit of `l / s`, and neither debit exceeds its stated maximum.
pub proof fn lemma_deposit_keeps_ratio(ctx: ProvideLiquidity, max_x: u64, max_y: u64)
    requires
        ctx.pool.lp_supply > 0,
        ctx.vault_x > 0,
        ctx.vault_y > 0,
    ensures
        ctx.deposit_outcome(max_x as int, max_y as int) matches Ok(t) ==> {
            let s = ctx.pool.lp_supply as int;
            let l = t.2 as int;
            &&& t.0 * s <= ctx.vault_x * l < t.0 * s + s
            &&& t.1 * s <= ctx.vault_y * l < t.1 * s + s
            &&& t.0 <= max_x
            &&& t.1 <= max_y
        },
{
    let s = ctx.pool.lp_supply as int;
    let vx = ctx.vault_x as int;
    let vy = ctx.vault_y as int;
    if let Ok(t) = ctx.deposit_outcome(max_x as int, max_y as int) {
        let l = t.2 as int;
        assert(0 <= vx * l && 0 <= vy * l) by (nonlinear_arith)
            requires
                0 <= l,
                0 < vx,
                0 < vy,
        ;
        lemma_div_bracket(vx * l, s);
        lemma_div_bracket(vy * l, s);
        lemma_shares_within_max(s, vx, max_x as int, l);
        lemma_shares_within_max(s, vy, max_y as int, l);
        assert(t.0 == vx * l / s);
        assert(t.0 * s == s * (vx * l / s)) by (nonlinear_arith)
            requires
                t.0 == vx * l / s,
        ;
        assert(t.1 * s == s * (vy * l / s)) by (nonlinear_arith)
            requires
                t.1 == vy * l / s,
        ;
    }
}

/// The pool that a deposit meets right after a withdrawal from `w`.
pub open spec fn after_withdrawal(w: Withdraw, amount: u64, x: u64, y: u64) -> ProvideLiquidity {
    let n = w.withdrawn(amount, x, y);
    ProvideLiquidity { pool: n.pool, vault_x: n.vault_x, vault_y: n.vault_y }
}

/// Withdrawing `l` shares and at once depositing what came out never mints
/// more than `l` shares nor draws more than was paid; where neither division
/// rounded, it mints exactly `l` and restores the pool as it was. Only the
/// zero-share refusal can stop that deposit.
pub proof fn lemma_withdraw_then_deposit(w: Withdraw, l: u64)
    requires
        !w.pool.locked,
        0 < l < w.pool.lp_supply,
        w.vault_x > 0,
        w.vault_y > 0,
    ensures
        w.withdraw_outcome(l as int) matches Ok(r) && {
            let d = after_withdrawal(w, l, r.0, r.1);
            let again = d.deposit_outcome(r.0 as int, r.1 as int);
            &&& again matches Ok(t) ==> t.2 <= l && t.0 <= r.0 && t.1 <= r.1
            &&& again is Err ==> again == Err::<(u64, u64, u64), PoolError>(
                PoolError::LpTokenAmountCannotBeZero,
            )
            &&& (r.0 * w.pool.lp_supply == w.vault_x * l && r.1 * w.pool.lp_supply == w.vault_y
                * l) ==> again == Ok::<(u64, u64, u64), PoolError>((r.0, r.1, l))
                && d.deposited(r.0, r.1, l) == (ProvideLiquidity {
                pool: w.pool,
                vault_x: w.vault_x,
                vault_y: w.vault_y,
            })
        },
{
    let s = w.pool.lp_supply as int;
    let vx = w.vault_x as int;
    let vy = w.vault_y as int;
    let li = l as int;
    lemma_scaled_at_most(li, vx, s);
    lemma_scaled_at_most(li, vy, s);
    assert(vx * li == li * vx && vy * li == li * vy) by (nonlinear_arith);
    let r = w.withdraw_outcome(li).unwrap();
    let rx = r.0 as int;
    let ry = r.1 as int;
    assert(rx == vx * li / s);
    assert(ry == vy * li / s);
    lemma_remainder_after_withdrawal(s, vx, li, rx);
    lemma_remainder_after_withdrawal(s, vy, li, ry);
    let d = after_withdrawal(w, l, r.0, r.1);
    let s2 = s - li;
    let vx2 = vx - rx;
    let vy2 = vy - ry;
    assert(d.pool.lp_supply == s2 && d.vault_x == vx2 && d.vault_y == vy2);
    lemma_div_bracket(rx * s2, vx2);
    lemma_div_bracket(ry * s2, vy2);
    let lx = rx * s2 / vx2;
    let ly = ry * s2 / vy2;
    assert(lx <= li) by (nonlinear_arith)
        requires
            vx2 * lx <= rx * s2,
            rx * s2 <= li * vx2,
            0 < vx2,
    ;
    assert(ly <= li) by (nonlinear_arith)
        requires
            vy2 * ly <= ry * s2,
            ry * s2 <= li * vy2,
            0 < vy2,
    ;
    let l2 = if lx <= ly { lx } else { ly };
    lemma_shares_within_max(s2, vx2, rx, l2);
    lemma_shares_within_max(s2, vy2, ry, l2);
    if rx * s == vx * li && ry * s == vy * li {
        assert(rx * s2 == li * vx2) by (nonlinear_arith)
            requires
                rx * s == vx * li,
                s2 == s - li,
                vx2 == vx - rx,
        ;
        assert(ry * s2 == li * vy2) by (nonlinear_arith)
            requires
                ry * s == vy * li,
                s2 == s - li,
                vy2 == vy - ry,
        ;
        lemma_div_by_multiple(li, vx2);
        lemma_div_by_multiple(li, vy2);
        lemma_div_by_multiple(rx, s2);
        lemma_div_by_multiple(ry, s2);
        assert(vx2 * li == rx * s2 && vy2 * li == ry * s2) by (nonlinear_arith)
            requires
                rx * s2 == li * vx2,
                ry * s2 == li * vy2,
        ;
        assert(lx == li);
        assert(ly == li);
    }
}

/// What is left of a reserve after paying `r = floor(v * l / s)` for `l`
/// of `s` shares is positive, and the payment never outweighs the shares.
pub proof fn lemma_remainder_after_withdrawal(s: int, v: int, l: int, r: int)
    requires
        0 < l < s,
        0 < v,
        r == v * l / s,
    ensures
        0 <= r < v,
        r * s <= v * l,
        r * (s - l) <= l * (v - r),
{
    assert(0 <= v * l) by (nonlinear_arith)
        requires
            0 < v,
            0 < l,
    ;
    lemma_div_bracket(v * l, s);
    assert(r * s <= v * l) by (nonlinear_arith)
        requires
            s * r <= v * l,
    ;
    assert(r < v) by (nonlinear_arith)
        requires
            r * s <= v * l,
            l < s,
            0 < v,
            0 < s,
    ;
    assert(r * (s - l) <= l * (v - r)) by (nonlinear_arith)
        requires
            r * s <= v * l,
    ;
}

/// With no fee, a swap pays exactly what the constant product leaves over:
/// `vault_out - floor(vault_in * vault_out / (vault_in + amount_in))`.
pub proof fn lemma_zero_fee_swap(vault_in: u64, vault_out: u64, amount_in: u64)
    requires
        0 < vault_in + amount_in <= u64::MAX,
    ensures
        swap_outcome(vault_in as int, vault_out as int, amount_in as int, 0) == Ok::<
            (u64, u64),
            PoolError,
        >(
            (
                (vault_out - vault_in * vault_out / (vault_in + amount_in) as int) as u64,
                0u64,
            ),
        ),
{
    assert(amount_in as int * 0 == 0) by (nonlinear_arith);
}

/// A swap at a fee above zero never lowers the product of the two vaults.
/// Exactly: with `k = vault_in * vault_out` and `n` the input side net of
/// the fee, the new product is `k - k % n + fee * (k / n)`, so at any fee it
/// falls by less than `n`, and where the fee is above zero the swap goes
/// through only if it does not fall at all.
pub proof fn lemma_swap_product(ctx: SwapTokens, amount_in: u64, amount_out_min: u64, is_x: bool)
    ensures
        ctx.swap_result(amount_in as int, amount_out_min as int, is_x) matches Ok(t) ==> {
            let after = ctx.swapped(amount_in, is_x, t.0, t.1);
            let k = ctx.vault_x * ctx.vault_y;
            let n = ctx.vault_in(is_x) + amount_in - t.1;
            let product = after.vault_x * after.vault_y;
            &&& n > 0
            &&& product == k - k % n + t.1 * (k / n)
            &&& product > k - n
            &&& (product >= k <==> t.1 * (k / n) >= k % n)
            &&& ctx.pool.fee_bp > 0 ==> product >= k
        },
{
    if let Ok(t) = ctx.swap_result(amount_in as int, amount_out_min as int, is_x) {
        let vin = ctx.vault_in(is_x) as int;
        let vout = ctx.vault_out(is_x) as int;
        let fee = t.1 as int;
        let n = vin + amount_in - fee;
        let k = vin * vout;
        assert(k == ctx.vault_x * ctx.vault_y) by (nonlinear_arith)
            requires
                (vin == ctx.vault_x && vout == ctx.vault_y) || (vin == ctx.vault_y && vout
                    == ctx.vault_x),
                k == vin * vout,
        ;
        assert(0 <= k) by (nonlinear_arith)
            requires
                0 <= vin,
                0 <= vout,
                k == vin * vout,
        ;
        lemma_scaled_at_most(vin, vout, n);
        lemma_div_bracket(k, n);
        vstd::arithmetic::div_mod::lemma_fundamental_div_mod(k, n);
        let q = k / n;
        let after = ctx.swapped(amount_in, is_x, t.0, t.1);
        assert(t.0 == vout - q);
        assert(after.vault_x * after.vault_y == (vin + amount_in) * q) by (nonlinear_arith)
            requires
                (is_x && after.vault_x == vin + amount_in && after.vault_y == q) || (!is_x
                    && after.vault_y == vin + amount_in && after.vault_x == q),
        ;
        assert((vin + amount_in) * q == k - k % n + fee * q) by (nonlinear_arith)
            requires
                k == n * q + k % n,
                n == vin + amount_in - fee,
        ;
        assert(fee * q >= 0) by (nonlinear_arith)
            requires
                0 <= fee,
                0 <= q,
        ;
    }
}

/// A locked pool refuses every deposit, swap and withdrawal with
/// `PoolIsLocked`; the operations then leave their state as it was.
pub proof fn lemma_locked_pool_refuses(
    pool: Pool,
    vault_x: u64,
    vault_y: u64,
    max_x: u64,
    max_y: u64,
    amount_in: u64,
    amount_out_min: u64,
    is_x: bool,
    amount: u64,
)
    requires
        pool.locked,
    ensures
        (ProvideLiquidity { pool, vault_x, vault_y }).deposit_outcome(max_x as int, max_y as int)
            == Err::<(u64, u64, u64), PoolError>(PoolError::PoolIsLocked),
        (SwapTokens { pool, vault_x, vault_y }).swap_result(
            amount_in as int,
            amount_out_min as int,
            is_x,
        ) == Err::<(u64, u64), PoolError>(PoolError::PoolIsLocked),
        (Withdraw { pool, vault_x, vault_y }).withdraw_outcome(amount as int) == Err::<
            (u64, u64),
            PoolError,
        >(PoolError::PoolIsLocked),
{
}

/// Deposits and withdrawals keep shares existing exactly when reserves do.
pub proof fn lemma_liquidity_keeps_consistency(pool: Pool, vault_x: u64, vault_y: u64, a: u64, b: u64)
    requires
        reserves_consistent(pool.lp_supply as int, vault_x as int, vault_y as int),
    ensures
        ({
            let d = ProvideLiquidity { pool, vault_x, vault_y };
            d.deposit_outcome(a as int, b as int) matches Ok(t) ==> {
                let n = d.deposited(t.0, t.1, t.2);
                reserves_consistent(n.pool.lp_supply as int, n.vault_x as int, n.vault_y as int)
            }
        }),
        ({
            let w = Withdraw { pool, vault_x, vault_y };
            w.withdraw_outcome(a as int) matches Ok(t) ==> {
                let n = w.withdrawn(a, t.0, t.1);
                reserves_consistent(n.pool.lp_supply as int, n.vault_x as int, n.vault_y as int)
            }
        }),
{
    let s = pool.lp_supply as int;
    let d = ProvideLiquidity { pool, vault_x, vault_y };
    if s == 0 && vault_x == 0 && vault_y == 0 {
        if a == 0 || b == 0 {
            assert(a as int * b as int == 0) by (nonlinear_arith)
                requires
                    a == 0 || b == 0,
            ;
            lemma_floor_sqrt_unique(0, 0);
        }
    }
    let w = Withdraw { pool, vault_x, vault_y };
    if let Ok(t) = w.withdraw_outcome(a as int) {
        let l = a as int;
        lemma_scaled_at_most(l, vault_x as int, s);
        lemma_scaled_at_most(l, vault_y as int, s);
        assert(vault_x * l == l * vault_x && vault_y * l == l * vault_y) by (nonlinear_arith);
        if l == s {
            lemma_div_by_multiple(vault_x as int, s);
            lemma_div_by_multiple(vault_y as int, s);
        } else {
            if vault_x > 0 {
                lemma_remainder_after_withdrawal(s, vault_x as int, l, t.0 as int);
            } else {
                assert(vault_y > 0);
                lemma_remainder_after_withdrawal(s, vault_y as int, l, t.1 as int);
            }
        }
    }
}

} // verus!
