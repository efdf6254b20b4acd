use amm::error::PoolError;
use amm::helper::{compute_swap, get_lp_token_amount_init, get_lp_tokens_to_mint, mul_div, xy_from_l};

#[test]
fn mul_div_rounds_down() {
    assert_eq!(mul_div(7, 3, 2), Ok(10));
    assert_eq!(mul_div(u64::MAX, u64::MAX, u64::MAX), Ok(u64::MAX));
}

#[test]
fn mul_div_by_zero_is_refused() {
    assert_eq!(mul_div(7, 3, 0), Err(PoolError::DivisionByZero));
}

#[test]
fn mul_div_overflow_is_refused() {
    assert_eq!(mul_div(u64::MAX, u64::MAX, 1), Err(PoolError::OverFlowError));
    assert_eq!(mul_div(u64::MAX, 2, 1), Err(PoolError::OverFlowError));
}

#[test]
fn initial_mint_is_floor_square_root() {
    assert_eq!(get_lp_token_amount_init(100, 400), Ok(200));
    assert_eq!(get_lp_token_amount_init(2, 3), Ok(2));
    assert_eq!(get_lp_token_amount_init(0, 5), Ok(0));
    assert_eq!(get_lp_token_amount_init(u64::MAX, u64::MAX), Ok(u64::MAX));
}

#[test]
fn lp_tokens_to_mint_takes_minimum() {
    assert_eq!(get_lp_tokens_to_mint(200, 100, 400, 50, 400), Ok(100));
    assert_eq!(get_lp_tokens_to_mint(200, 100, 400, 500, 400), Ok(200));
}

#[test]
fn lp_tokens_to_mint_errors() {
    assert_eq!(get_lp_tokens_to_mint(200, 0, 400, 50, 400), Err(PoolError::DivisionByZero));
    assert_eq!(get_lp_tokens_to_mint(200, 100, 0, 50, 400), Err(PoolError::DivisionByZero));
    assert_eq!(get_lp_tokens_to_mint(u64::MAX, 1, 400, 2, 400), Err(PoolError::OverFlowError));
    assert_eq!(get_lp_tokens_to_mint(u64::MAX, 1, 0, u64::MAX, 5), Err(PoolError::DivisionByZero));
}

#[test]
fn xy_from_l_is_pro_rata() {
    assert_eq!(xy_from_l(200, 100, 400, 50), Ok((25, 100)));
    assert_eq!(xy_from_l(3, 10, 7, 1), Ok((3, 2)));
}

#[test]
fn xy_from_l_errors() {
    assert_eq!(xy_from_l(0, 100, 400, 50), Err(PoolError::DivisionByZero));
    assert_eq!(xy_from_l(1, u64::MAX, 400, 2), Err(PoolError::OverFlowError));
    assert_eq!(xy_from_l(1, 4, u64::MAX, 2), Err(PoolError::OverFlowError));
}

#[test]
fn compute_swap_exact_values() {
    assert_eq!(compute_swap(100, 400, 100, 0), Ok((200, 0)));
    assert_eq!(compute_swap(1_000_000, 1_000_000, 10_000, 30), Ok((9_872, 30)));
    assert_eq!(compute_swap(2_000, 500, 300, 100), Ok((65, 3)));
}

#[test]
fn compute_swap_errors() {
    assert_eq!(compute_swap(0, 400, 0, 30), Err(PoolError::DivisionByZero));
    assert_eq!(compute_swap(10, 400, 10, 20_000), Err(PoolError::OverFlowError));
    assert_eq!(compute_swap(u64::MAX, 400, 10, 0), Err(PoolError::OverFlowError));
}

#[test]
fn compute_swap_refuses_rounding_that_lowers_product() {
    assert_eq!(compute_swap(2, 2, 1, 1), Err(PoolError::InvalidAmount));
    assert_eq!(compute_swap(2, 2, 1, 0), Ok((1, 0)));
    assert_eq!(compute_swap(1, 1, 1, 30), Err(PoolError::InvalidAmount));
}
