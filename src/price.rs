//! Price and order-trigger predicate: spot price of a pool in fixed point and
//! the limit-order trigger condition.
use vstd::prelude::*;
use crate::errors::CustomError;

verus! {

/// Fixed-point scale of prices: six implied decimals.
pub const PRICE_SCALE: u128 = 1_000_000;

/// Price of token A in token B with six implied decimals, floored.
pub open spec fn pool_price(reserve_a: int, reserve_b: int) -> int {
    reserve_b * PRICE_SCALE as int / reserve_a
}

/// What `calculate_pool_price` returns, failures included.
pub open spec fn pool_price_result(reserve_a: u64, reserve_b: u64) -> Result<u64, CustomError> {
    if reserve_a == 0 {
        Err(CustomError::InsufficientLiquidity)
    } else if pool_price(reserve_a as int, reserve_b as int) > u64::MAX {
        Err(CustomError::CalculationOverflow)
    } else {
        Ok(pool_price(reserve_a as int, reserve_b as int) as u64)
    }
}

/// Whether a limit order triggers: a sell when the pool pays at least the
/// target, a buy when the pool asks at most the target.
pub open spec fn price_condition(pool_price: u64, target_price: u64, is_sell: bool) -> bool {
    if is_sell {
        pool_price >= target_price
    } else {
        pool_price <= target_price
    }
}

/// Spot price `reserve_b * 1_000_000 / reserve_a` of the pool; a price that
/// does not fit 64 bits is an overflow.
pub fn calculate_pool_price(reserve_a: u64, reserve_b: u64) -> (r: Result<u64, CustomError>)
    ensures
        r == pool_price_result(reserve_a, reserve_b),
{
    if reserve_a == 0 {
        return Err(CustomError::InsufficientLiquidity);
    }
    let price = match (reserve_b as u128).checked_mul(PRICE_SCALE) {
        Some(v) => match v.checked_div(reserve_a as u128) {
            Some(q) => q,
            None => return Err(CustomError::CalculationOverflow),
        },
        None => return Err(CustomError::CalculationOverflow),
    };
    if price > u64::MAX as u128 {
        return Err(CustomError::CalculationOverflow);
    }
    Ok(price as u64)
}

/// Compares the pool price against a limit order's target price.
pub fn check_price_condition(pool_price: u64, target_price: u64, is_sell: bool) -> (r: bool)
    ensures
        r == price_condition(pool_price, target_price, is_sell),
{
    if is_sell {
        pool_price >= target_price
    } else {
        pool_price <= target_price
    }
}

} // verus!
