use amm::error::PoolError;
use amm::initialize_pool::Initialize;
use amm::pool::Pool;
use amm::provide_liquidity::ProvideLiquidity;
use amm::swap::SwapTokens;
use amm::withdraw::Withdraw;

fn pool(lp_supply: u64, fee_bp: u16) -> Pool {
    Pool {
        authority: [1; 32],
        mint_x: [2; 32],
        mint_y: [3; 32],
        ata_x: [4; 32],
        ata_y: [5; 32],
        lp_mint: [6; 32],
        lp_supply,
        fee_bp,
        fee_collected_x: 0,
        fee_collected_y: 0,
        pool_bump: 254,
        lp_bump: 253,
        locked: false,
    }
}

fn locked_pool() -> Pool {
    let mut p = pool(200, 30);
    p.locked = true;
    p
}

#[test]
fn initial_deposit_mints_square_root() {
    let mut ctx = ProvideLiquidity { pool: pool(0, 30), vault_x: 0, vault_y: 0 };
    assert_eq!(ctx.deposit_tokens(100, 400), Ok((100, 400, 200)));
    assert_eq!(ctx.pool.lp_supply, 200);
    assert_eq!(ctx.vault_x, 100);
    assert_eq!(ctx.vault_y, 400);
}

#[test]
fn initial_deposit_of_nothing_is_refused() {
    let mut ctx = ProvideLiquidity { pool: pool(0, 30), vault_x: 0, vault_y: 0 };
    assert_eq!(ctx.deposit_tokens(0, 500), Err(PoolError::LpTokenAmountCannotBeZero));
    assert_eq!(ctx.pool.lp_supply, 0);
    assert_eq!(ctx.vault_y, 0);
}

#[test]
fn proportional_deposit_takes_the_limiting_side() {
    let mut ctx = ProvideLiquidity { pool: pool(200, 30), vault_x: 100, vault_y: 400 };
    assert_eq!(ctx.deposit_tokens(50, 400), Ok((50, 200, 100)));
    assert_eq!(ctx.pool.lp_supply, 300);
    assert_eq!(ctx.vault_x, 150);
    assert_eq!(ctx.vault_y, 600);
}

#[test]
fn proportional_deposit_rounds_down_within_one_unit() {
    let mut ctx = ProvideLiquidity { pool: pool(3, 30), vault_x: 10, vault_y: 7 };
    let (dx, dy, l) = ctx.deposit_tokens(5, 5).unwrap();
    assert_eq!((dx, dy, l), (3, 2, 1));
    assert!(dx * 3 <= 10 * l && 10 * l < dx * 3 + 3);
    assert!(dy * 3 <= 7 * l && 7 * l < dy * 3 + 3);
}

#[test]
fn deposit_into_half_empty_pool_divides_by_zero() {
    let mut ctx = ProvideLiquidity { pool: pool(10, 30), vault_x: 0, vault_y: 50 };
    assert_eq!(ctx.deposit_tokens(5, 5), Err(PoolError::DivisionByZero));
}

#[test]
fn deposit_overflowing_a_vault_is_refused() {
    let mut ctx = ProvideLiquidity { pool: pool(1, 30), vault_x: u64::MAX - 1, vault_y: 1 };
    assert_eq!(ctx.deposit_tokens(u64::MAX, 5), Err(PoolError::OverFlowError));
    assert_eq!(ctx.vault_x, u64::MAX - 1);
    assert_eq!(ctx.pool.lp_supply, 1);
}

#[test]
fn locked_pool_refuses_deposit() {
    let mut ctx = ProvideLiquidity { pool: locked_pool(), vault_x: 100, vault_y: 400 };
    assert_eq!(ctx.deposit_tokens(50, 400), Err(PoolError::PoolIsLocked));
    assert_eq!(ctx.vault_x, 100);
    assert_eq!(ctx.vault_y, 400);
    assert_eq!(ctx.pool.lp_supply, 200);
}

#[test]
fn locked_pool_refuses_swap() {
    let mut ctx = SwapTokens { pool: locked_pool(), vault_x: 100, vault_y: 400 };
    assert_eq!(ctx.swap(10, 0, true), Err(PoolError::PoolIsLocked));
    assert_eq!(ctx.vault_x, 100);
    assert_eq!(ctx.vault_y, 400);
    assert_eq!(ctx.pool.fee_collected_x, 0);
}

#[test]
fn locked_pool_refuses_withdraw() {
    let mut ctx = Withdraw { pool: locked_pool(), vault_x: 100, vault_y: 400 };
    assert_eq!(ctx.withdraw(50), Err(PoolError::PoolIsLocked));
    assert_eq!(ctx.vault_x, 100);
    assert_eq!(ctx.pool.lp_supply, 200);
}

#[test]
fn zero_fee_swap_follows_constant_product() {
    let mut ctx = SwapTokens { pool: pool(200, 0), vault_x: 100, vault_y: 400 };
    let expected = 400 - (100 * 400) / (100 + 100);
    assert_eq!(ctx.swap(100, 0, true), Ok((expected, 0)));
    assert_eq!(expected, 200);
    assert_eq!(ctx.vault_x, 200);
    assert_eq!(ctx.vault_y, 200);
}

#[test]
fn swap_with_fee_keeps_fee_in_vault_and_grows_product() {
    let mut ctx = SwapTokens { pool: pool(1_000_000, 30), vault_x: 1_000_000, vault_y: 1_000_000 };
    assert_eq!(ctx.swap(10_000, 9_000, true), Ok((9_872, 30)));
    assert_eq!(ctx.vault_x, 1_010_000);
    assert_eq!(ctx.vault_y, 990_128);
    assert_eq!(ctx.pool.fee_collected_x, 30);
    assert_eq!(ctx.pool.fee_collected_y, 0);
    let product = ctx.vault_x as u128 * ctx.vault_y as u128;
    assert!(product >= 1_000_000u128 * 1_000_000u128);
}

#[test]
fn swap_from_y_to_x() {
    let mut ctx = SwapTokens { pool: pool(1_000, 100), vault_x: 500, vault_y: 2_000 };
    assert_eq!(ctx.swap(300, 0, false), Ok((65, 3)));
    assert_eq!(ctx.vault_x, 435);
    assert_eq!(ctx.vault_y, 2_300);
    assert_eq!(ctx.pool.fee_collected_y, 3);
}

#[test]
fn swap_of_nothing_pays_nothing() {
    let mut ctx = SwapTokens { pool: pool(200, 30), vault_x: 100, vault_y: 400 };
    assert_eq!(ctx.swap(0, 0, true), Ok((0, 0)));
    assert_eq!(ctx.vault_x, 100);
    assert_eq!(ctx.vault_y, 400);
}

#[test]
fn swap_below_minimum_output_is_refused() {
    let mut ctx = SwapTokens { pool: pool(200, 0), vault_x: 100, vault_y: 400 };
    assert_eq!(ctx.swap(100, 201, true), Err(PoolError::SlippageExceeded));
    assert_eq!(ctx.vault_x, 100);
    assert_eq!(ctx.vault_y, 400);
}

#[test]
fn swap_against_empty_vault_is_refused() {
    let mut ctx = SwapTokens { pool: pool(0, 30), vault_x: 0, vault_y: 400 };
    assert_eq!(ctx.swap(100, 0, true), Err(PoolError::DivisionByZero));
}

#[test]
fn swap_overflowing_input_vault_is_refused() {
    let mut ctx = SwapTokens { pool: pool(10, 0), vault_x: u64::MAX - 5, vault_y: 10 };
    assert_eq!(ctx.swap(10, 0, true), Err(PoolError::OverFlowError));
    assert_eq!(ctx.vault_x, u64::MAX - 5);
}

#[test]
fn withdraw_pays_pro_rata() {
    let mut ctx = Withdraw { pool: pool(200, 30), vault_x: 100, vault_y: 400 };
    assert_eq!(ctx.withdraw(50), Ok((25, 100)));
    assert_eq!(ctx.pool.lp_supply, 150);
    assert_eq!(ctx.vault_x, 75);
    assert_eq!(ctx.vault_y, 300);
}

#[test]
fn withdraw_everything_empties_the_pool() {
    let mut ctx = Withdraw { pool: pool(200, 30), vault_x: 101, vault_y: 403 };
    assert_eq!(ctx.withdraw(200), Ok((101, 403)));
    assert_eq!(ctx.pool.lp_supply, 0);
    assert_eq!(ctx.vault_x, 0);
    assert_eq!(ctx.vault_y, 0);
}

#[test]
fn withdraw_of_zero_is_refused() {
    let mut ctx = Withdraw { pool: pool(200, 30), vault_x: 100, vault_y: 400 };
    assert_eq!(ctx.withdraw(0), Err(PoolError::InvalidAmount));
}

#[test]
fn withdraw_beyond_supply_is_refused() {
    let mut ctx = Withdraw { pool: pool(200, 30), vault_x: 100, vault_y: 400 };
    assert_eq!(ctx.withdraw(201), Err(PoolError::InvalidAmount));
    assert_eq!(ctx.pool.lp_supply, 200);
}

#[test]
fn withdraw_then_deposit_restores_shares() {
    let mut w = Withdraw { pool: pool(200, 30), vault_x: 100, vault_y: 400 };
    let (rx, ry) = w.withdraw(50).unwrap();
    let mut d = ProvideLiquidity { pool: w.pool, vault_x: w.vault_x, vault_y: w.vault_y };
    assert_eq!(d.deposit_tokens(rx, ry), Ok((25, 100, 50)));
    assert_eq!(d.pool.lp_supply, 200);
    assert_eq!(d.vault_x, 100);
    assert_eq!(d.vault_y, 400);
}

#[test]
fn withdraw_then_deposit_loses_to_rounding() {
    let mut w = Withdraw { pool: pool(3, 30), vault_x: 10, vault_y: 10 };
    let (rx, ry) = w.withdraw(1).unwrap();
    assert_eq!((rx, ry), (3, 3));
    let mut d = ProvideLiquidity { pool: w.pool, vault_x: w.vault_x, vault_y: w.vault_y };
    assert_eq!(d.deposit_tokens(rx, ry), Err(PoolError::LpTokenAmountCannotBeZero));
}

#[test]
fn burn_tokens_checks_supply() {
    let mut ctx = Withdraw { pool: pool(10, 30), vault_x: 100, vault_y: 400 };
    assert_eq!(ctx.burn_tokens(11), Err(PoolError::InvalidAmount));
    assert_eq!(ctx.burn_tokens(4), Ok(()));
    assert_eq!(ctx.burn_tokens(10), Ok(()));
    assert_eq!(ctx.pool.lp_supply, 10);
}

#[test]
fn withdraw_tokens_checks_vault() {
    let mut ctx = Withdraw { pool: pool(10, 30), vault_x: 100, vault_y: 400 };
    assert_eq!(ctx.withdraw_tokens(true, 101), Err(PoolError::InvalidAmount));
    assert_eq!(ctx.withdraw_tokens(false, 400), Ok(()));
    assert_eq!(ctx.vault_y, 0);
    assert_eq!(ctx.vault_x, 100);
}

#[test]
fn initialize_pool_records_accounts_and_fee() {
    let init = Initialize {
        authority: [1; 32],
        mint_x: [2; 32],
        mint_y: [3; 32],
        ata_x: [4; 32],
        ata_y: [5; 32],
        lp_token_mint: [6; 32],
        pool_bump: 254,
        lp_bump: 253,
    };
    let p = init.initialize_pool(30, 7).unwrap();
    assert_eq!(p.fee_bp, 30);
    assert_eq!(p.lp_supply, 0);
    assert_eq!(p.lp_mint, [6; 32]);
    assert_eq!(p.ata_y, [5; 32]);
    assert_eq!(p.fee_collected_x, 0);
    assert!(!p.locked);
    assert_eq!(init.initialize_pool(10_000, 0).unwrap_err(), PoolError::InvalidAmount);
    assert!(init.initialize_pool(9_999, 0).is_ok());
}

#[test]
fn entry_points_forward_to_operations() {
    let init = Initialize {
        authority: [1; 32],
        mint_x: [2; 32],
        mint_y: [3; 32],
        ata_x: [4; 32],
        ata_y: [5; 32],
        lp_token_mint: [6; 32],
        pool_bump: 1,
        lp_bump: 2,
    };
    let p = amm::initialize_pool(&init, 0, 0).unwrap();
    let mut d = ProvideLiquidity { pool: p, vault_x: 0, vault_y: 0 };
    assert_eq!(amm::provide_liquidity(&mut d, 100, 400), Ok((100, 400, 200)));
    let mut s = SwapTokens { pool: d.pool, vault_x: d.vault_x, vault_y: d.vault_y };
    assert_eq!(amm::swap(&mut s, 100, 0, true), Ok((200, 0)));
    let mut w = Withdraw { pool: s.pool, vault_x: s.vault_x, vault_y: s.vault_y };
    assert_eq!(amm::withdraw(&mut w, 100), Ok((100, 100)));
}

#[test]
fn error_messages() {
    assert_eq!(PoolError::PoolIsLocked.message(), "Pool is locked");
    assert_eq!(PoolError::SlippageExceeded.message(), "Slippage exceeded");
    assert_eq!(PoolError::DivisionByZero.message(), "Division by zero");
    assert_eq!(PoolError::LpTokenAmountCannotBeZero.message(), "Lp token amount cannot be 0");
    assert_eq!(PoolError::OverFlowError.message(), "Overflow Error");
    assert_eq!(PoolError::InvalidAmount.message(), "Invalid Amount");
}

#[test]
fn swap_that_would_lower_the_product_is_refused() {
    let mut ctx = SwapTokens { pool: pool(2, 1), vault_x: 2, vault_y: 2 };
    assert_eq!(ctx.swap(1, 0, true), Err(PoolError::InvalidAmount));
    assert_eq!(ctx.vault_x, 2);
    assert_eq!(ctx.vault_y, 2);
    assert_eq!(ctx.pool.fee_collected_x, 0);
}

#[test]
fn deposit_with_empty_vault_and_large_side_divides_by_zero() {
    let mut ctx = ProvideLiquidity { pool: pool(u64::MAX, 30), vault_x: 1, vault_y: 0 };
    assert_eq!(ctx.deposit_tokens(u64::MAX, 5), Err(PoolError::DivisionByZero));
    assert_eq!(ctx.vault_x, 1);
    assert_eq!(ctx.pool.lp_supply, u64::MAX);
}

#[test]
fn new_pool_takes_initial_deposit_whatever_supply_was_given() {
    let init = Initialize {
        authority: [1; 32],
        mint_x: [2; 32],
        mint_y: [3; 32],
        ata_x: [4; 32],
        ata_y: [5; 32],
        lp_token_mint: [6; 32],
        pool_bump: 1,
        lp_bump: 2,
    };
    let p = init.initialize_pool(30, 1_000).unwrap();
    let mut d = ProvideLiquidity { pool: p, vault_x: 0, vault_y: 0 };
    assert_eq!(d.deposit_tokens(100, 400), Ok((100, 400, 200)));
    assert_eq!(d.pool.lp_supply, 200);
}
