use solrush_dex::curve::calculate_output_amount;
use solrush_dex::errors::CustomError;
use solrush_dex::liquidity::{
    calculate_lp_tokens, calculate_lp_tokens_for_add_liquidity, calculate_remove_liquidity_amounts,
    validate_ratio_imbalance,
};
use solrush_dex::math::isqrt;
use solrush_dex::price::{calculate_pool_price, check_price_condition};

#[test]
fn isqrt_small_values() {
    let expected: [u128; 18] = [0, 1, 1, 1, 2, 2, 2, 2, 2, 3, 3, 3, 3, 3, 3, 3, 4, 4];
    for (n, want) in expected.iter().enumerate() {
        assert_eq!(isqrt(n as u128), *want, "isqrt({})", n);
    }
}

#[test]
fn isqrt_bounds_hold_on_sampled_values() {
    let mut n: u128 = 7;
    for _ in 0..200 {
        let r = isqrt(n);
        assert!(r * r <= n);
        let next = r + 1;
        assert!(next.checked_mul(next).map_or(true, |sq| n < sq));
        n = n.wrapping_mul(6364136223846793005).wrapping_add(1442695040888963407);
    }
}

#[test]
fn isqrt_largest_input() {
    assert_eq!(isqrt(u128::MAX), u64::MAX as u128);
    let big = (u64::MAX as u128) * (u64::MAX as u128);
    assert_eq!(isqrt(big), u64::MAX as u128);
    assert_eq!(isqrt(big - 1), u64::MAX as u128 - 1);
}

#[test]
fn initial_lp_tokens_of_equal_deposit() {
    assert_eq!(calculate_lp_tokens(1_000_000, 1_000_000), Ok(1_000_000));
}

#[test]
fn initial_lp_tokens_is_floor_of_geometric_mean() {
    assert_eq!(calculate_lp_tokens(4, 9), Ok(6));
    assert_eq!(calculate_lp_tokens(2, 3), Ok(2));
    assert_eq!(calculate_lp_tokens(1, 1_000_000), Ok(1_000));
    assert_eq!(calculate_lp_tokens(u64::MAX, u64::MAX), Ok(u64::MAX));
    let lp = calculate_lp_tokens(1_000, 4_000).unwrap();
    assert!(1_000 <= lp && lp <= 4_000);
}

#[test]
fn initial_lp_tokens_rejects_zero_side() {
    assert_eq!(calculate_lp_tokens(0, 5), Err(CustomError::InvalidInitialDeposit));
    assert_eq!(calculate_lp_tokens(5, 0), Err(CustomError::InvalidInitialDeposit));
}

#[test]
fn deposit_lp_tokens_take_the_scarcer_side() {
    assert_eq!(calculate_lp_tokens_for_add_liquidity(100, 300, 1_000, 2_000, 500), Ok(50));
    assert_eq!(calculate_lp_tokens_for_add_liquidity(300, 100, 1_000, 2_000, 500), Ok(25));
    assert_eq!(calculate_lp_tokens_for_add_liquidity(1, 1, 3, 3, 2), Ok(0));
}

#[test]
fn deposit_lp_tokens_errors() {
    assert_eq!(calculate_lp_tokens_for_add_liquidity(0, 1, 1, 1, 1), Err(CustomError::InvalidAmount));
    assert_eq!(calculate_lp_tokens_for_add_liquidity(1, 0, 1, 1, 1), Err(CustomError::InvalidAmount));
    assert_eq!(calculate_lp_tokens_for_add_liquidity(1, 1, 0, 1, 1), Err(CustomError::InsufficientLiquidity));
    assert_eq!(calculate_lp_tokens_for_add_liquidity(1, 1, 1, 0, 1), Err(CustomError::InsufficientLiquidity));
    assert_eq!(
        calculate_lp_tokens_for_add_liquidity(u64::MAX, u64::MAX, 1, 1, u64::MAX),
        Err(CustomError::CalculationOverflow)
    );
}

#[test]
fn redemption_is_pro_rata_and_floored() {
    assert_eq!(calculate_remove_liquidity_amounts(250, 1_000, 4_000, 10), Ok((1_000, 2)));
    assert_eq!(calculate_remove_liquidity_amounts(1_000, 1_000, 4_000, 10), Ok((4_000, 10)));
}

#[test]
fn redemption_errors() {
    assert_eq!(calculate_remove_liquidity_amounts(0, 1, 1, 1), Err(CustomError::InvalidAmount));
    assert_eq!(calculate_remove_liquidity_amounts(1, 0, 1, 1), Err(CustomError::InsufficientLiquidity));
    assert_eq!(
        calculate_remove_liquidity_amounts(u64::MAX, 1, 2, 1),
        Err(CustomError::CalculationOverflow)
    );
}

#[test]
fn ratio_within_one_percent_passes() {
    assert_eq!(validate_ratio_imbalance(500_000, 1_005_000, 1_000_000, 2_000_000), Ok(()));
    assert_eq!(validate_ratio_imbalance(500_000, 995_000, 1_000_000, 2_000_000), Ok(()));
}

#[test]
fn ratio_beyond_one_percent_fails() {
    assert_eq!(
        validate_ratio_imbalance(500_000, 1_020_000, 1_000_000, 2_000_000),
        Err(CustomError::RatioImbalance)
    );
    assert_eq!(
        validate_ratio_imbalance(500_000, 994_999, 1_000_000, 2_000_000),
        Err(CustomError::RatioImbalance)
    );
}

#[test]
fn ratio_check_with_zero_divisor_is_an_overflow() {
    assert_eq!(validate_ratio_imbalance(0, 1, 1, 1), Err(CustomError::CalculationOverflow));
    assert_eq!(validate_ratio_imbalance(1, 1, 0, 1), Err(CustomError::CalculationOverflow));
}

#[test]
fn swap_output_with_three_per_mille_fee() {
    // fee 30, 9_970 enters the curve, floor(10^12 / 1_009_970) = 990_128 stays.
    assert_eq!(calculate_output_amount(10_000, 1_000_000, 1_000_000, 3, 1000), Ok(9_872));
}

#[test]
fn swap_output_without_fee() {
    assert_eq!(calculate_output_amount(1, 2, 5, 0, 1000), Ok(2));
    assert_eq!(calculate_output_amount(1_000_000, 1_000_000, 1_000_000, 0, 1), Ok(500_000));
}

#[test]
fn swap_output_with_empty_input_reserve_fails() {
    assert_eq!(calculate_output_amount(10_000, 0, 1_000_000, 3, 1000), Err(CustomError::InsufficientLiquidity));
    assert_eq!(calculate_output_amount(10_000, 1_000_000, 0, 3, 1000), Err(CustomError::InsufficientLiquidity));
}

#[test]
fn swap_output_errors() {
    assert_eq!(calculate_output_amount(0, 1, 1, 3, 1000), Err(CustomError::InvalidAmount));
    assert_eq!(calculate_output_amount(10, 100, 100, 3, 0), Err(CustomError::CalculationOverflow));
    assert_eq!(calculate_output_amount(10, 100, 100, 2000, 1000), Err(CustomError::CalculationOverflow));
    // A fee of the whole input leaves nothing to trade: zero output.
    assert_eq!(calculate_output_amount(10, 100, 100, 1000, 1000), Err(CustomError::InsufficientLiquidity));
}

#[test]
fn swap_output_at_largest_values() {
    let out = calculate_output_amount(u64::MAX, u64::MAX, u64::MAX, 0, 1).unwrap();
    assert_eq!(out, u64::MAX - u64::MAX / 2);
}

#[test]
fn swap_output_grows_with_input() {
    let mut last = 0u64;
    for x in [1u64, 10, 100, 1_000, 10_000, 100_000, 1_000_000, 10_000_000] {
        let out = calculate_output_amount(x, 1_000_000, 2_000_000, 3, 1000).unwrap();
        assert!(out >= last);
        last = out;
    }
}

#[test]
fn swap_output_shrinks_with_fee() {
    let mut last = u64::MAX;
    for f in [0u64, 1, 3, 25, 100, 500, 999] {
        let out = calculate_output_amount(50_000, 1_000_000, 1_000_000, f, 1000).unwrap();
        assert!(out <= last);
        last = out;
    }
}

#[test]
fn reserve_product_after_swap() {
    // With a fee the product of the reserves grows.
    let (ri, ro, x) = (1_000_000u128, 1_000_000u128, 10_000u64);
    let out = calculate_output_amount(x, ri as u64, ro as u64, 3, 1000).unwrap() as u128;
    assert!((ri + x as u128) * (ro - out) >= ri * ro);
    // Without a fee floor rounding may lose less than the new input reserve.
    let out = calculate_output_amount(1, 2, 5, 0, 1000).unwrap() as u128;
    let product = (2 + 1) * (5 - out);
    assert_eq!(product, 9);
    assert!(product < 10 && product + 3 > 10);
}

#[test]
fn deposit_then_redeem_returns_at_most_the_deposit() {
    let (ra, rb, supply) = (1_000_000u64, 2_000_000u64, 1_414_213u64);
    let (a, b) = (10_001u64, 20_003u64);
    let lp = calculate_lp_tokens_for_add_liquidity(a, b, ra, rb, supply).unwrap();
    let (out_a, out_b) = calculate_remove_liquidity_amounts(lp, supply + lp, ra + a, rb + b).unwrap();
    assert!(out_a <= a && out_b <= b);
    let lp = calculate_lp_tokens(7, 13).unwrap();
    assert_eq!(calculate_remove_liquidity_amounts(lp, lp, 7, 13), Ok((7, 13)));
}

#[test]
fn pool_price_fixed_point() {
    assert_eq!(calculate_pool_price(1_000_000, 2_000_000), Ok(2_000_000));
    assert_eq!(calculate_pool_price(3, 1), Ok(333_333));
}

#[test]
fn pool_price_errors() {
    assert_eq!(calculate_pool_price(0, 1), Err(CustomError::InsufficientLiquidity));
    assert_eq!(calculate_pool_price(1, u64::MAX), Err(CustomError::CalculationOverflow));
}

#[test]
fn order_trigger_sell_and_buy() {
    assert!(check_price_condition(1_050_000, 1_000_000, true));
    assert!(!check_price_condition(1_050_000, 1_000_000, false));
    assert!(check_price_condition(1_000_000, 1_000_000, true));
    assert!(check_price_condition(1_000_000, 1_000_000, false));
    assert!(check_price_condition(950_000, 1_000_000, false));
}
