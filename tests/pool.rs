use token_swap::engine::{TokenSwapContract, RETENTION_HORIZON};
use token_swap::pool::{get_amount_out, LiquidityPool, PoolError};

fn pool(a: i128, b: i128, swaps: u64) -> LiquidityPool {
    LiquidityPool { token_a_reserve: a, token_b_reserve: b, total_swaps: swaps }
}

#[test]
fn test_initialize_and_swap() {
    let mut client = TokenSwapContract::new();

    client.initialize_pool(1000, 1000).unwrap();

    let pool = client.view_pool();
    assert_eq!(pool.token_a_reserve, 1000);
    assert_eq!(pool.token_b_reserve, 1000);

    let amount_out = client.swap_a_for_b(100).unwrap();
    assert!(amount_out > 0);

    let pool_after = client.view_pool();
    assert_eq!(pool_after.token_a_reserve, 1100);
    assert_eq!(pool_after.total_swaps, 1);
}

#[test]
fn view_of_empty_store_is_all_zeros() {
    let c = TokenSwapContract::new();
    assert_eq!(c.view_pool(), pool(0, 0, 0));
    assert_eq!(c.retention, 0);
}

#[test]
fn initialize_then_view_returns_given_reserves() {
    for (a, b) in [(1, 1), (7, 3), (1000, 250), (i128::MAX, i128::MAX)] {
        let mut c = TokenSwapContract::new();
        assert_eq!(c.initialize_pool(a, b), Ok(()));
        assert_eq!(c.view_pool(), pool(a, b, 0));
        assert_eq!(c.retention, RETENTION_HORIZON);
    }
}

#[test]
fn second_initialize_fails_and_keeps_record() {
    let mut c = TokenSwapContract::new();
    c.initialize_pool(500, 800).unwrap();
    assert_eq!(c.initialize_pool(500, 800), Err(PoolError::AlreadyInitialized));
    assert_eq!(c.initialize_pool(0, -4), Err(PoolError::AlreadyInitialized));
    assert_eq!(c.view_pool(), pool(500, 800, 0));
}

#[test]
fn degenerate_record_still_blocks_initialize() {
    let mut c = TokenSwapContract::from_record(Some(pool(0, 0, 0)));
    assert_eq!(c.initialize_pool(10, 10), Err(PoolError::AlreadyInitialized));
    assert_eq!(c.record, Some(pool(0, 0, 0)));
}

#[test]
fn non_positive_initial_amounts_are_invalid() {
    for (a, b) in [(0, 5), (5, 0), (0, 0), (-1, 5), (5, -1), (i128::MIN, i128::MIN)] {
        let mut c = TokenSwapContract::new();
        assert_eq!(c.initialize_pool(a, b), Err(PoolError::InvalidAmount));
        assert_eq!(c.record, None);
        assert_eq!(c.retention, 0);
    }
}

#[test]
fn swap_moves_reserves_by_the_quote() {
    let mut c = TokenSwapContract::new();
    c.initialize_pool(5000, 3000).unwrap();
    let out = c.swap_a_for_b(700).unwrap();
    // 700 * 3000 / 5700 = 368.42...
    assert_eq!(out, 368);
    assert!(0 <= out && out < 3000);
    assert_eq!(c.view_pool(), pool(5700, 2632, 1));
    assert!(5700 * 2632 >= 5000 * 3000);

    let out_a = c.swap_b_for_a(200).unwrap();
    // 200 * 5700 / 2832 = 402.54...
    assert_eq!(out_a, 402);
    assert_eq!(c.view_pool(), pool(5298, 2832, 2));
    assert_eq!(c.retention, RETENTION_HORIZON);
}

#[test]
fn concrete_scenario_thousand_by_thousand() {
    let mut c = TokenSwapContract::new();
    c.initialize_pool(1000, 1000).unwrap();
    assert_eq!(c.view_pool(), pool(1000, 1000, 0));
    assert_eq!(c.swap_a_for_b(100), Ok(90));
    assert_eq!(c.view_pool(), pool(1100, 910, 1));
}

#[test]
fn tiny_swap_may_pay_out_nothing() {
    let mut c = TokenSwapContract::new();
    c.initialize_pool(1000, 1000).unwrap();
    assert_eq!(c.swap_a_for_b(1), Ok(0));
    assert_eq!(c.view_pool(), pool(1001, 1000, 1));
}

#[test]
fn non_positive_swap_amount_is_invalid() {
    let mut c = TokenSwapContract::new();
    c.initialize_pool(100, 100).unwrap();
    assert_eq!(c.swap_a_for_b(0), Err(PoolError::InvalidAmount));
    assert_eq!(c.swap_b_for_a(-3), Err(PoolError::InvalidAmount));
    assert_eq!(c.view_pool(), pool(100, 100, 0));

    let mut empty = TokenSwapContract::new();
    assert_eq!(empty.swap_a_for_b(0), Err(PoolError::InvalidAmount));
}

#[test]
fn swap_on_uninitialized_pool_fails_without_change() {
    let mut c = TokenSwapContract::new();
    assert_eq!(c.swap_a_for_b(100), Err(PoolError::PoolNotInitialized));
    assert_eq!(c.swap_b_for_a(100), Err(PoolError::PoolNotInitialized));
    assert_eq!(c.record, None);
    assert_eq!(c.retention, 0);

    let mut zero = TokenSwapContract::from_record(Some(pool(0, 50, 4)));
    assert_eq!(zero.swap_a_for_b(10), Err(PoolError::PoolNotInitialized));
    assert_eq!(zero.record, Some(pool(0, 50, 4)));

    let mut negative = TokenSwapContract::from_record(Some(pool(50, -1, 4)));
    assert_eq!(negative.swap_b_for_a(10), Err(PoolError::PoolNotInitialized));
    assert_eq!(negative.record, Some(pool(50, -1, 4)));
}

#[test]
fn overflowing_swaps_are_refused() {
    let mut sum = TokenSwapContract::new();
    sum.initialize_pool(i128::MAX, 2).unwrap();
    assert_eq!(sum.swap_a_for_b(1), Err(PoolError::ArithmeticOverflow));
    assert_eq!(sum.view_pool(), pool(i128::MAX, 2, 0));

    let mut product = TokenSwapContract::new();
    product.initialize_pool(1, i128::MAX).unwrap();
    assert_eq!(product.swap_a_for_b(2), Err(PoolError::ArithmeticOverflow));
    assert_eq!(product.view_pool(), pool(1, i128::MAX, 0));

    let mut counter = TokenSwapContract::from_record(Some(pool(10, 10, u64::MAX)));
    assert_eq!(counter.swap_b_for_a(5), Err(PoolError::ArithmeticOverflow));
    assert_eq!(counter.record, Some(pool(10, 10, u64::MAX)));
    assert_eq!(counter.retention, 0);
}

#[test]
fn round_trip_loses_to_rounding() {
    let mut c = TokenSwapContract::new();
    c.initialize_pool(1000, 1000).unwrap();
    let received = c.swap_a_for_b(100).unwrap();
    assert_eq!(received, 90);
    let back = c.swap_b_for_a(received).unwrap();
    assert_eq!(back, 99);
    let end = c.view_pool();
    assert_eq!(end, pool(1001, 1000, 2));
    assert_ne!((end.token_a_reserve, end.token_b_reserve), (1000, 1000));
    assert!(end.token_a_reserve * end.token_b_reserve >= 1000 * 1000);
}

#[test]
fn round_trip_with_exact_quote_restores_reserves() {
    let mut c = TokenSwapContract::new();
    c.initialize_pool(1, 2).unwrap();
    let received = c.swap_a_for_b(1).unwrap();
    assert_eq!(received, 1);
    assert_eq!(c.swap_b_for_a(received), Ok(1));
    assert_eq!(c.view_pool(), pool(1, 2, 2));
}

#[test]
fn amount_out_quotes() {
    assert_eq!(get_amount_out(100, 1000, 1000), Some(90));
    assert_eq!(get_amount_out(1, 1, 1), Some(0));
    assert_eq!(get_amount_out(3, 1, 10), Some(7));
    assert_eq!(get_amount_out(1, i128::MAX, 5), None);
    assert_eq!(get_amount_out(2, 1, i128::MAX), None);
    assert_eq!(get_amount_out(1, 1, i128::MAX), Some(i128::MAX / 2));
}
