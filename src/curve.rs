//! Reserve invariant engine: fee-adjusted constant-product swap output.
use vstd::prelude::*;
use vstd::arithmetic::div_mod::{
    lemma_div_is_ordered, lemma_div_is_ordered_by_denominator, lemma_div_multiples_vanish,
    lemma_hoist_over_denominator, lemma_fundamental_div_mod,
};
use crate::errors::CustomError;
use crate::math::lemma_wide_product_fits;

verus! {

/// The fee taken from `input_amount`: `floor(input_amount * fee_numerator / fee_denominator)`.
pub open spec fn fee_amount(input_amount: int, fee_numerator: int, fee_denominator: int) -> int {
    input_amount * fee_numerator / fee_denominator
}

/// What of the input enters the curve once the fee is deducted.
pub open spec fn amount_after_fee(input_amount: int, fee_numerator: int, fee_denominator: int) -> int {
    input_amount - fee_amount(input_amount, fee_numerator, fee_denominator)
}

/// The output reserve that keeps `k = input_reserve * output_reserve`, floored,
/// once `amount_with_fee` has joined the input reserve.
pub open spec fn new_output_reserve(input_reserve: int, output_reserve: int, amount_with_fee: int) -> int {
    (input_reserve * output_reserve) / (input_reserve + amount_with_fee)
}

/// The constant-product swap output.
pub open spec fn swap_output(
    input_amount: int,
    input_reserve: int,
    output_reserve: int,
    fee_numerator: int,
    fee_denominator: int,
) -> int {
    output_reserve - new_output_reserve(
        input_reserve,
        output_reserve,
        amount_after_fee(input_amount, fee_numerator, fee_denominator),
    )
}

/// What `calculate_output_amount` returns, failures included.
pub open spec fn output_amount_result(
    input_amount: u64,
    input_reserve: u64,
    output_reserve: u64,
    fee_numerator: u64,
    fee_denominator: u64,
) -> Result<u64, CustomError> {
    if input_amount == 0 {
        Err(CustomError::InvalidAmount)
    } else if input_reserve == 0 || output_reserve == 0 {
        Err(CustomError::InsufficientLiquidity)
    } else if fee_denominator == 0 || amount_after_fee(
        input_amount as int,
        fee_numerator as int,
        fee_denominator as int,
    ) < 0 {
        Err(CustomError::CalculationOverflow)
    } else if swap_output(
        input_amount as int,
        input_reserve as int,
        output_reserve as int,
        fee_numerator as int,
        fee_denominator as int,
    ) == 0 {
        Err(CustomError::InsufficientLiquidity)
    } else {
        Ok(
            swap_output(
                input_amount as int,
                input_reserve as int,
                output_reserve as int,
                fee_numerator as int,
                fee_denominator as int,
            ) as u64,
        )
    }
}

/// The floored new output reserve lies between zero and the old output reserve.
pub proof fn lemma_new_output_reserve_bounds(input_reserve: int, output_reserve: int, amount_with_fee: int)
    requires
        0 < input_reserve,
        0 <= output_reserve,
        0 <= amount_with_fee,
    ensures
        0 <= new_output_reserve(input_reserve, output_reserve, amount_with_fee) <= output_reserve,
{
    let k = input_reserve * output_reserve;
    assert(0 <= k) by (nonlinear_arith)
        requires 0 < input_reserve, 0 <= output_reserve, k == input_reserve * output_reserve;
    lemma_div_is_ordered_by_denominator(k, input_reserve, input_reserve + amount_with_fee);
    lemma_div_multiples_vanish(output_reserve, input_reserve);
    assert(k / input_reserve == output_reserve) by {
        assert(k == input_reserve * output_reserve);
    }
    lemma_div_is_ordered(0, k, input_reserve + amount_with_fee);
}

/// Output of a swap against `input_reserve` / `output_reserve` with a fee of
/// `fee_numerator / fee_denominator` deducted from the input.
pub fn calculate_output_amount(
    input_amount: u64,
    input_reserve: u64,
    output_reserve: u64,
    fee_numerator: u64,
    fee_denominator: u64,
) -> (r: Result<u64, CustomError>)
    ensures
        r == output_amount_result(
            input_amount,
            input_reserve,
            output_reserve,
            fee_numerator,
            fee_denominator,
        ),
        r is Ok ==> 0 < r->Ok_0 <= output_reserve,
{
    if input_amount == 0 {
        return Err(CustomError::InvalidAmount);
    }
    if !(input_reserve > 0 && output_reserve > 0) {
        return Err(CustomError::InsufficientLiquidity);
    }
    proof {
        lemma_wide_product_fits(input_amount, fee_numerator);
        lemma_wide_product_fits(input_reserve, output_reserve);
    }
    let fee_product = match (input_amount as u128).checked_mul(fee_numerator as u128) {
        Some(v) => v,
        None => return Err(CustomError::CalculationOverflow),
    };
    let fee_amount = match fee_product.checked_div(fee_denominator as u128) {
        Some(v) => v,
        None => return Err(CustomError::CalculationOverflow),
    };
    let amount_with_fee = match (input_amount as u128).checked_sub(fee_amount) {
        Some(v) => v,
        None => return Err(CustomError::CalculationOverflow),
    };
    let k = match (input_reserve as u128).checked_mul(output_reserve as u128) {
        Some(v) => v,
        None => return Err(CustomError::CalculationOverflow),
    };
    let new_input_reserve = match (input_reserve as u128).checked_add(amount_with_fee) {
        Some(v) => v,
        None => return Err(CustomError::CalculationOverflow),
    };
    let new_output = match k.checked_div(new_input_reserve) {
        Some(v) => v,
        None => return Err(CustomError::CalculationOverflow),
    };
    proof {
        lemma_new_output_reserve_bounds(
            input_reserve as int,
            output_reserve as int,
            amount_with_fee as int,
        );
    }
    let output_amount = match (output_reserve as u128).checked_sub(new_output) {
        Some(v) => v,
        None => return Err(CustomError::CalculationOverflow),
    };
    if output_amount == 0 {
        return Err(CustomError::InsufficientLiquidity);
    }
    Ok(output_amount as u64)
}

/// The fee never exceeds the input when the fee fraction is at most one, and
/// it grows with the input no faster than the input itself.
proof fn lemma_fee_steps(x1: int, x2: int, fee_numerator: int, fee_denominator: int)
    requires
        0 <= x1 <= x2,
        0 <= fee_numerator <= fee_denominator,
        0 < fee_denominator,
    ensures
        0 <= amount_after_fee(x1, fee_numerator, fee_denominator),
        amount_after_fee(x1, fee_numerator, fee_denominator) <= amount_after_fee(
            x2,
            fee_numerator,
            fee_denominator,
        ),
{
    let d = fee_denominator;
    let f = fee_numerator;
    assert(x1 * f <= x1 * d) by (nonlinear_arith)
        requires 0 <= x1, f <= d;
    lemma_div_is_ordered(x1 * f, x1 * d, d);
    lemma_div_multiples_vanish(x1, d);
    assert(x1 * d == d * x1) by (nonlinear_arith);
    assert(x2 * f <= x1 * f + (x2 - x1) * d) by (nonlinear_arith)
        requires 0 <= x1 <= x2, f <= d;
    lemma_div_is_ordered(x2 * f, x1 * f + (x2 - x1) * d, d);
    lemma_hoist_over_denominator(x1 * f, x2 - x1, d as nat);
}

/// With a fee fraction above one, no positive input has anything left once
/// the fee is deducted.
proof fn lemma_excess_fee_leaves_nothing(x: int, fee_numerator: int, fee_denominator: int)
    requires
        0 <= x,
        0 < fee_denominator < fee_numerator,
    ensures
        amount_after_fee(x, fee_numerator, fee_denominator) <= 0,
{
    let d = fee_denominator;
    assert(x * d <= x * fee_numerator) by (nonlinear_arith)
        requires 0 <= x, d < fee_numerator;
    lemma_div_is_ordered(x * d, x * fee_numerator, d);
    lemma_div_multiples_vanish(x, d);
    assert(x * d == d * x) by (nonlinear_arith);
}

/// A larger amount of what enters the curve never yields a smaller output.
proof fn lemma_output_grows_with_amount(input_reserve: int, output_reserve: int, w1: int, w2: int)
    requires
        0 < input_reserve,
        0 <= output_reserve,
        0 <= w1 <= w2,
    ensures
        output_reserve - new_output_reserve(input_reserve, output_reserve, w1) <= output_reserve
            - new_output_reserve(input_reserve, output_reserve, w2),
{
    let k = input_reserve * output_reserve;
    assert(0 <= k) by (nonlinear_arith)
        requires 0 < input_reserve, 0 <= output_reserve, k == input_reserve * output_reserve;
    lemma_div_is_ordered_by_denominator(k, input_reserve + w1, input_reserve + w2);
}

/// Swap output is monotonic in the input amount: whenever a swap of `x1`
/// succeeds, a swap of any larger `x2` against the same pool and fee succeeds
/// too and pays out at least as much.
pub proof fn lemma_output_monotonic_in_input(
    x1: u64,
    x2: u64,
    input_reserve: u64,
    output_reserve: u64,
    fee_numerator: u64,
    fee_denominator: u64,
)
    requires
        x1 <= x2,
    ensures
        output_amount_result(x1, input_reserve, output_reserve, fee_numerator, fee_denominator) is Ok
            ==> {
            &&& output_amount_result(
                x2,
                input_reserve,
                output_reserve,
                fee_numerator,
                fee_denominator,
            ) is Ok
            &&& output_amount_result(
                x1,
                input_reserve,
                output_reserve,
                fee_numerator,
                fee_denominator,
            )->Ok_0 <= output_amount_result(
                x2,
                input_reserve,
                output_reserve,
                fee_numerator,
                fee_denominator,
            )->Ok_0
        },
{
    if output_amount_result(x1, input_reserve, output_reserve, fee_numerator, fee_denominator) is Ok {
        let (fn_, fd) = (fee_numerator as int, fee_denominator as int);
        if fn_ > fd {
            lemma_excess_fee_leaves_nothing(x1 as int, fn_, fd);
            lemma_div_multiples_vanish(output_reserve as int, input_reserve as int);
            assert(false);
        }
        lemma_fee_steps(x1 as int, x2 as int, fn_, fd);
        lemma_output_grows_with_amount(
            input_reserve as int,
            output_reserve as int,
            amount_after_fee(x1 as int, fn_, fd),
            amount_after_fee(x2 as int, fn_, fd),
        );
        lemma_new_output_reserve_bounds(
            input_reserve as int,
            output_reserve as int,
            amount_after_fee(x1 as int, fn_, fd),
        );
        lemma_new_output_reserve_bounds(
            input_reserve as int,
            output_reserve as int,
            amount_after_fee(x2 as int, fn_, fd),
        );
    }
}

/// Swap output is antitone in the fee: whenever a swap succeeds under fee
/// numerator `f2`, it succeeds under any smaller `f1` (same denominator) and
/// pays out at least as much.
pub proof fn lemma_output_antitone_in_fee(
    input_amount: u64,
    input_reserve: u64,
    output_reserve: u64,
    f1: u64,
    f2: u64,
    fee_denominator: u64,
)
    requires
        f1 <= f2,
    ensures
        output_amount_result(input_amount, input_reserve, output_reserve, f2, fee_denominator) is Ok
            ==> {
            &&& output_amount_result(
                input_amount,
                input_reserve,
                output_reserve,
                f1,
                fee_denominator,
            ) is Ok
            &&& output_amount_result(
                input_amount,
                input_reserve,
                output_reserve,
                f2,
                fee_denominator,
            )->Ok_0 <= output_amount_result(
                input_amount,
                input_reserve,
                output_reserve,
                f1,
                fee_denominator,
            )->Ok_0
        },
{
    if output_amount_result(input_amount, input_reserve, output_reserve, f2, fee_denominator) is Ok {
        let (x, d) = (input_amount as int, fee_denominator as int);
        assert(x * f1 <= x * f2) by (nonlinear_arith)
            requires 0 <= x, f1 <= f2;
        lemma_div_is_ordered(x * f1, x * f2, d);
        lemma_output_grows_with_amount(
            input_reserve as int,
            output_reserve as int,
            amount_after_fee(x, f2 as int, d),
            amount_after_fee(x, f1 as int, d),
        );
        lemma_new_output_reserve_bounds(
            input_reserve as int,
            output_reserve as int,
            amount_after_fee(x, f1 as int, d),
        );
        lemma_new_output_reserve_bounds(
            input_reserve as int,
            output_reserve as int,
            amount_after_fee(x, f2 as int, d),
        );
    }
}

/// The product of the reserves after a successful swap, which takes in the
/// whole `input_amount` and pays out its `swap_output`, against
/// `k = input_reserve * output_reserve` before it. With `d` the input reserve
/// plus the amount after fee, the new product is exactly
/// `k - k % d + new_output_reserve * fee`: it never falls by `d` or more, and
/// it does not fall at all when the retained fee, times the new output
/// reserve, covers the rounding remainder `k % d`.
pub proof fn lemma_reserve_product_after_swap(
    input_amount: u64,
    input_reserve: u64,
    output_reserve: u64,
    fee_numerator: u64,
    fee_denominator: u64,
)
    requires
        output_amount_result(
            input_amount,
            input_reserve,
            output_reserve,
            fee_numerator,
            fee_denominator,
        ) is Ok,
    ensures
        ({
            let (x, ri, ro) = (input_amount as int, input_reserve as int, output_reserve as int);
            let fee = fee_amount(x, fee_numerator as int, fee_denominator as int);
            let d = ri + amount_after_fee(x, fee_numerator as int, fee_denominator as int);
            let k = ri * ro;
            let reserve_out_new = ro - swap_output(x, ri, ro, fee_numerator as int, fee_denominator as int);
            let product_new = (ri + x) * reserve_out_new;
            &&& product_new == k - k % d + reserve_out_new * fee
            &&& product_new > k - d
            &&& reserve_out_new * fee >= k % d ==> product_new >= k
        }),
{
    let (x, ri, ro) = (input_amount as int, input_reserve as int, output_reserve as int);
    let fee = fee_amount(x, fee_numerator as int, fee_denominator as int);
    let d = ri + amount_after_fee(x, fee_numerator as int, fee_denominator as int);
    let k = ri * ro;
    let q = k / d;
    assert(ro - swap_output(x, ri, ro, fee_numerator as int, fee_denominator as int) == q);
    lemma_fundamental_div_mod(k, d);
    let (f, fd) = (fee_numerator as int, fee_denominator as int);
    assert(0 <= x * f) by (nonlinear_arith)
        requires 0 <= x, 0 <= f;
    lemma_div_is_ordered(0, x * f, fd);
    assert((ri + x) * q == d * q + q * fee) by (nonlinear_arith)
        requires ri + x == d + fee;
    assert(0 <= k % d < d) by {
        vstd::arithmetic::div_mod::lemma_mod_pos_bound(k, d);
    }
    assert(0 <= q) by {
        lemma_new_output_reserve_bounds(ri, ro, amount_after_fee(x, fee_numerator as int, fee_denominator as int));
    }
    assert(0 <= q * fee) by (nonlinear_arith)
        requires 0 <= q, 0 <= fee;
}

} // verus!
