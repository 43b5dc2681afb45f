//! Liquidity issuance engine: LP-token mint and burn formulas and the
//! deposit-ratio tolerance check.
use vstd::prelude::*;
use vstd::arithmetic::div_mod::{lemma_div_is_ordered, lemma_div_multiples_vanish, lemma_fundamental_div_mod};
use crate::errors::CustomError;
use crate::math::{floor_sqrt, is_floor_sqrt, isqrt, lemma_wide_product_fits};

verus! {

/// Basis points in one whole: ratios are compared at this precision.
pub const RATIO_SCALE: u128 = 10000;

/// Largest accepted gap, in basis points, between a deposit's ratio and the pool's.
pub const RATIO_TOLERANCE: u128 = 100;

pub open spec fn min_int(a: int, b: int) -> int {
    if a < b { a } else { b }
}

pub open spec fn max_int(a: int, b: int) -> int {
    if a < b { b } else { a }
}

/// LP tokens minted for depositing `amount_a` / `amount_b` into a pool with
/// reserves `reserve_a` / `reserve_b` and `total_lp_supply` tokens out: the
/// smaller of the two pro-rata shares.
pub open spec fn lp_for_deposit(
    amount_a: int,
    amount_b: int,
    reserve_a: int,
    reserve_b: int,
    total_lp_supply: int,
) -> int {
    min_int(amount_a * total_lp_supply / reserve_a, amount_b * total_lp_supply / reserve_b)
}

/// The part of `reserve` that `lp_tokens` of `total_lp_supply` redeem.
pub open spec fn redeemed_share(lp_tokens: int, total_lp_supply: int, reserve: int) -> int {
    lp_tokens * reserve / total_lp_supply
}

/// A ratio `numerator / denominator` in basis points, floored.
pub open spec fn ratio_bps(numerator: int, denominator: int) -> int {
    numerator * RATIO_SCALE as int / denominator
}

/// The deposit's ratio lies within the tolerance of the pool's.
pub open spec fn ratio_within_tolerance(amount_a: int, amount_b: int, reserve_a: int, reserve_b: int) -> bool {
    let expected = ratio_bps(reserve_b, reserve_a);
    let provided = ratio_bps(amount_b, amount_a);
    -(RATIO_TOLERANCE as int) <= expected - provided <= RATIO_TOLERANCE as int
}

/// What `calculate_lp_tokens_for_add_liquidity` returns, failures included.
pub open spec fn lp_for_deposit_result(
    amount_a: u64,
    amount_b: u64,
    reserve_a: u64,
    reserve_b: u64,
    total_lp_supply: u64,
) -> Result<u64, CustomError> {
    if amount_a == 0 || amount_b == 0 {
        Err(CustomError::InvalidAmount)
    } else if reserve_a == 0 || reserve_b == 0 {
        Err(CustomError::InsufficientLiquidity)
    } else if lp_for_deposit(
        amount_a as int,
        amount_b as int,
        reserve_a as int,
        reserve_b as int,
        total_lp_supply as int,
    ) > u64::MAX {
        Err(CustomError::CalculationOverflow)
    } else {
        Ok(
            lp_for_deposit(
                amount_a as int,
                amount_b as int,
                reserve_a as int,
                reserve_b as int,
                total_lp_supply as int,
            ) as u64,
        )
    }
}

/// What `calculate_remove_liquidity_amounts` returns, failures included.
pub open spec fn redemption_result(
    lp_tokens_to_burn: u64,
    total_lp_supply: u64,
    reserve_a: u64,
    reserve_b: u64,
) -> Result<(u64, u64), CustomError> {
    let amount_a = redeemed_share(lp_tokens_to_burn as int, total_lp_supply as int, reserve_a as int);
    let amount_b = redeemed_share(lp_tokens_to_burn as int, total_lp_supply as int, reserve_b as int);
    if lp_tokens_to_burn == 0 {
        Err(CustomError::InvalidAmount)
    } else if total_lp_supply == 0 {
        Err(CustomError::InsufficientLiquidity)
    } else if amount_a > u64::MAX || amount_b > u64::MAX {
        Err(CustomError::CalculationOverflow)
    } else {
        Ok((amount_a as u64, amount_b as u64))
    }
}

/// What `validate_ratio_imbalance` returns, failures included.
pub open spec fn ratio_check_result(amount_a: u64, amount_b: u64, reserve_a: u64, reserve_b: u64) -> Result<
    (),
    CustomError,
> {
    if reserve_a == 0 || amount_a == 0 {
        Err(CustomError::CalculationOverflow)
    } else if ratio_within_tolerance(amount_a as int, amount_b as int, reserve_a as int, reserve_b as int) {
        Ok(())
    } else {
        Err(CustomError::RatioImbalance)
    }
}

/// The floor square root of a 128-bit value fits in 64 bits.
proof fn lemma_sqrt_fits(n: int, r: int)
    requires
        0 <= n <= u128::MAX,
        is_floor_sqrt(n, r),
    ensures
        r <= u64::MAX,
{
    if r > u64::MAX {
        assert(r * r > u128::MAX) by (nonlinear_arith)
            requires r > u64::MAX;
    }
}

/// The geometric mean of two positive amounts lies between them.
pub proof fn lemma_sqrt_between(a: int, b: int, r: int)
    requires
        0 < a,
        0 < b,
        is_floor_sqrt(a * b, r),
    ensures
        min_int(a, b) <= r <= max_int(a, b),
{
    let lo = min_int(a, b);
    let hi = max_int(a, b);
    assert(lo * lo <= a * b <= hi * hi) by (nonlinear_arith)
        requires 0 < lo <= hi, (lo == a && hi == b) || (lo == b && hi == a);
    if r < lo {
        assert((r + 1) * (r + 1) <= lo * lo) by (nonlinear_arith)
            requires 0 <= r < lo;
    }
    if r > hi {
        assert(hi * hi < r * r) by (nonlinear_arith)
            requires 0 < hi < r;
    }
}

/// LP tokens for the first deposit into an empty pool: the geometric mean
/// `floor(sqrt(amount_a * amount_b))`. Both sides must be positive.
pub fn calculate_lp_tokens(amount_a: u64, amount_b: u64) -> (r: Result<u64, CustomError>)
    ensures
        r is Err <==> amount_a == 0 || amount_b == 0,
        r is Err ==> r == Err::<u64, CustomError>(CustomError::InvalidInitialDeposit),
        r is Ok ==> is_floor_sqrt(amount_a as int * amount_b as int, r->Ok_0 as int),
        r is Ok ==> r->Ok_0 == floor_sqrt(amount_a as int * amount_b as int),
        r is Ok ==> min_int(amount_a as int, amount_b as int) <= r->Ok_0 <= max_int(
            amount_a as int,
            amount_b as int,
        ),
{
    if amount_a == 0 || amount_b == 0 {
        return Err(CustomError::InvalidInitialDeposit);
    }
    proof {
        lemma_wide_product_fits(amount_a, amount_b);
    }
    let product = match (amount_a as u128).checked_mul(amount_b as u128) {
        Some(v) => v,
        None => return Err(CustomError::CalculationOverflow),
    };
    let root = isqrt(product);
    proof {
        lemma_sqrt_fits(product as int, root as int);
        lemma_sqrt_between(amount_a as int, amount_b as int, root as int);
    }
    Ok(root as u64)
}

/// LP tokens minted for a deposit into a non-empty pool: the smaller of
/// `amount_a * total_lp_supply / reserve_a` and
/// `amount_b * total_lp_supply / reserve_b`.
pub fn calculate_lp_tokens_for_add_liquidity(
    amount_a: u64,
    amount_b: u64,
    reserve_a: u64,
    reserve_b: u64,
    total_lp_supply: u64,
) -> (r: Result<u64, CustomError>)
    ensures
        r == lp_for_deposit_result(amount_a, amount_b, reserve_a, reserve_b, total_lp_supply),
{
    if !(amount_a > 0 && amount_b > 0) {
        return Err(CustomError::InvalidAmount);
    }
    if !(reserve_a > 0 && reserve_b > 0) {
        return Err(CustomError::InsufficientLiquidity);
    }
    proof {
        lemma_wide_product_fits(amount_a, total_lp_supply);
        lemma_wide_product_fits(amount_b, total_lp_supply);
    }
    let lp_from_a = match (amount_a as u128).checked_mul(total_lp_supply as u128) {
        Some(v) => match v.checked_div(reserve_a as u128) {
            Some(q) => q,
            None => return Err(CustomError::CalculationOverflow),
        },
        None => return Err(CustomError::CalculationOverflow),
    };
    let lp_from_b = match (amount_b as u128).checked_mul(total_lp_supply as u128) {
        Some(v) => match v.checked_div(reserve_b as u128) {
            Some(q) => q,
            None => return Err(CustomError::CalculationOverflow),
        },
        None => return Err(CustomError::CalculationOverflow),
    };
    let lp = if lp_from_a < lp_from_b { lp_from_a } else { lp_from_b };
    if lp > u64::MAX as u128 {
        return Err(CustomError::CalculationOverflow);
    }
    Ok(lp as u64)
}

/// Amounts returned for burning `lp_tokens_to_burn` of `total_lp_supply` LP
/// tokens: the pro-rata share of each reserve, floored.
pub fn calculate_remove_liquidity_amounts(
    lp_tokens_to_burn: u64,
    total_lp_supply: u64,
    reserve_a: u64,
    reserve_b: u64,
) -> (r: Result<(u64, u64), CustomError>)
    ensures
        r == redemption_result(lp_tokens_to_burn, total_lp_supply, reserve_a, reserve_b),
{
    if lp_tokens_to_burn == 0 {
        return Err(CustomError::InvalidAmount);
    }
    if total_lp_supply == 0 {
        return Err(CustomError::InsufficientLiquidity);
    }
    proof {
        lemma_wide_product_fits(lp_tokens_to_burn, reserve_a);
        lemma_wide_product_fits(lp_tokens_to_burn, reserve_b);
    }
    let amount_a = match (lp_tokens_to_burn as u128).checked_mul(reserve_a as u128) {
        Some(v) => match v.checked_div(total_lp_supply as u128) {
            Some(q) => q,
            None => return Err(CustomError::CalculationOverflow),
        },
        None => return Err(CustomError::CalculationOverflow),
    };
    let amount_b = match (lp_tokens_to_burn as u128).checked_mul(reserve_b as u128) {
        Some(v) => match v.checked_div(total_lp_supply as u128) {
            Some(q) => q,
            None => return Err(CustomError::CalculationOverflow),
        },
        None => return Err(CustomError::CalculationOverflow),
    };
    if amount_a > u64::MAX as u128 || amount_b > u64::MAX as u128 {
        return Err(CustomError::CalculationOverflow);
    }
    Ok((amount_a as u64, amount_b as u64))
}

/// Checks that a deposit keeps the pool's ratio `reserve_b / reserve_a` within
/// the tolerance, both ratios taken in basis points and floored.
pub fn validate_ratio_imbalance(amount_a: u64, amount_b: u64, reserve_a: u64, reserve_b: u64) -> (r:
    Result<(), CustomError>)
    ensures
        r == ratio_check_result(amount_a, amount_b, reserve_a, reserve_b),
{
    let expected_ratio = match (reserve_b as u128).checked_mul(RATIO_SCALE) {
        Some(v) => match v.checked_div(reserve_a as u128) {
            Some(q) => q,
            None => return Err(CustomError::CalculationOverflow),
        },
        None => return Err(CustomError::CalculationOverflow),
    };
    let provided_ratio = match (amount_b as u128).checked_mul(RATIO_SCALE) {
        Some(v) => match v.checked_div(amount_a as u128) {
            Some(q) => q,
            None => return Err(CustomError::CalculationOverflow),
        },
        None => return Err(CustomError::CalculationOverflow),
    };
    let diff = if expected_ratio > provided_ratio {
        expected_ratio - provided_ratio
    } else {
        provided_ratio - expected_ratio
    };
    if diff > RATIO_TOLERANCE {
        return Err(CustomError::RatioImbalance);
    }
    Ok(())
}

/// LP tokens worth no more than their floored share of a deposit redeem, from
/// the pool that holds the deposit, no more than the deposit.
proof fn lemma_share_of_deposit_bounded(lp: int, supply: int, reserve: int, amount: int)
    requires
        0 <= lp,
        0 < supply,
        0 < reserve,
        0 <= amount,
        lp <= amount * supply / reserve,
    ensures
        redeemed_share(lp, supply + lp, reserve + amount) <= amount,
{
    let n = amount * supply;
    lemma_fundamental_div_mod(n, reserve);
    assert(lp * reserve <= n) by (nonlinear_arith)
        requires
            0 <= lp <= n / reserve,
            0 < reserve,
            n == reserve * (n / reserve) + n % reserve,
            0 <= n % reserve,
    ;
    let d = supply + lp;
    assert(lp * (reserve + amount) <= d * amount) by (nonlinear_arith)
        requires lp * reserve <= n, n == amount * supply, d == supply + lp;
    lemma_div_is_ordered(lp * (reserve + amount), d * amount, d);
    lemma_div_multiples_vanish(amount, d);
}

/// Depositing `(amount_a, amount_b)` into a non-empty pool and at once
/// redeeming the LP tokens that the deposit minted returns at most
/// `(amount_a, amount_b)`.
pub proof fn lemma_deposit_then_redeem(
    amount_a: int,
    amount_b: int,
    reserve_a: int,
    reserve_b: int,
    total_lp_supply: int,
)
    requires
        0 < amount_a,
        0 < amount_b,
        0 < reserve_a,
        0 < reserve_b,
        0 < total_lp_supply,
    ensures
        ({
            let lp = lp_for_deposit(amount_a, amount_b, reserve_a, reserve_b, total_lp_supply);
            &&& redeemed_share(lp, total_lp_supply + lp, reserve_a + amount_a) <= amount_a
            &&& redeemed_share(lp, total_lp_supply + lp, reserve_b + amount_b) <= amount_b
        }),
{
    let lp = lp_for_deposit(amount_a, amount_b, reserve_a, reserve_b, total_lp_supply);
    assert(0 <= amount_a * total_lp_supply && 0 <= amount_b * total_lp_supply) by (nonlinear_arith)
        requires 0 < amount_a, 0 < amount_b, 0 < total_lp_supply;
    lemma_div_is_ordered(0, amount_a * total_lp_supply, reserve_a);
    lemma_div_is_ordered(0, amount_b * total_lp_supply, reserve_b);
    lemma_share_of_deposit_bounded(lp, total_lp_supply, reserve_a, amount_a);
    lemma_share_of_deposit_bounded(lp, total_lp_supply, reserve_b, amount_b);
}

/// Seeding an empty pool with `(amount_a, amount_b)` and at once redeeming all
/// the LP tokens minted returns exactly `(amount_a, amount_b)`.
pub proof fn lemma_first_deposit_then_redeem(amount_a: int, amount_b: int, lp: int)
    requires
        0 < amount_a,
        0 < amount_b,
        is_floor_sqrt(amount_a * amount_b, lp),
    ensures
        redeemed_share(lp, lp, amount_a) == amount_a,
        redeemed_share(lp, lp, amount_b) == amount_b,
{
    lemma_sqrt_between(amount_a, amount_b, lp);
    lemma_div_multiples_vanish(amount_a, lp);
    lemma_div_multiples_vanish(amount_b, lp);
    assert(lp * amount_a == amount_a * lp && lp * amount_b == amount_b * lp) by (nonlinear_arith);
}

} // verus!
