//! Pool-level operations: creating a pool, depositing, redeeming and swapping,
//! each of which either applies its whole delta or leaves the pool unchanged.
use vstd::prelude::*;
use vstd::arithmetic::div_mod::{lemma_div_is_ordered, lemma_div_multiples_vanish, lemma_fundamental_div_mod};
use crate::curve::{calculate_output_amount, output_amount_result};
use crate::errors::CustomError;
use crate::liquidity::{
    calculate_lp_tokens, calculate_lp_tokens_for_add_liquidity, calculate_remove_liquidity_amounts,
    lemma_deposit_then_redeem, lemma_first_deposit_then_redeem, lemma_sqrt_between, lp_for_deposit,
    ratio_within_tolerance, redeemed_share, validate_ratio_imbalance,
};
use crate::math::{floor_sqrt, lemma_floor_sqrt_exists};
use crate::state::{LiquidityPool, Pubkey, SwapDirection};

verus! {

/// What `add_liquidity` returns: the LP tokens minted, or the failure.
pub open spec fn deposit_result(pool: LiquidityPool, amount_a: u64, amount_b: u64) -> Result<u64, CustomError> {
    let (a, b) = (amount_a as int, amount_b as int);
    let (ra, rb, supply) = (pool.reserve_a as int, pool.reserve_b as int, pool.total_lp_supply as int);
    if supply == 0 {
        if a == 0 || b == 0 {
            Err(CustomError::InvalidInitialDeposit)
        } else {
            Ok(floor_sqrt(a * b) as u64)
        }
    } else if a == 0 {
        Err(CustomError::InvalidAmount)
    } else if !ratio_within_tolerance(a, b, ra, rb) {
        Err(CustomError::RatioImbalance)
    } else if b == 0 {
        Err(CustomError::InvalidAmount)
    } else {
        let lp = lp_for_deposit(a, b, ra, rb, supply);
        if lp > u64::MAX || ra + a > u64::MAX || rb + b > u64::MAX || supply + lp > u64::MAX {
            Err(CustomError::CalculationOverflow)
        } else {
            Ok(lp as u64)
        }
    }
}

/// What `remove_liquidity` returns: the amounts of A and B released, or the failure.
pub open spec fn withdrawal_result(pool: LiquidityPool, lp_tokens_to_burn: u64) -> Result<(u64, u64), CustomError> {
    let (lp, supply) = (lp_tokens_to_burn as int, pool.total_lp_supply as int);
    let amount_a = redeemed_share(lp, supply, pool.reserve_a as int);
    let amount_b = redeemed_share(lp, supply, pool.reserve_b as int);
    if lp == 0 {
        Err(CustomError::InvalidAmount)
    } else if supply == 0 {
        Err(CustomError::InsufficientLiquidity)
    } else if lp > supply {
        Err(CustomError::InsufficientLPBalance)
    } else if amount_a == 0 && amount_b == 0 {
        Err(CustomError::InsufficientLiquidity)
    } else {
        Ok((amount_a as u64, amount_b as u64))
    }
}

/// The reserves that a swap in `direction` takes its input into and its output from.
pub open spec fn swap_reserves(pool: LiquidityPool, direction: SwapDirection) -> (u64, u64) {
    match direction {
        SwapDirection::AToB => (pool.reserve_a, pool.reserve_b),
        SwapDirection::BToA => (pool.reserve_b, pool.reserve_a),
    }
}

/// What `swap` returns: the output paid, or the failure.
pub open spec fn swap_result(
    pool: LiquidityPool,
    amount_in: u64,
    min_amount_out: u64,
    direction: SwapDirection,
) -> Result<u64, CustomError> {
    let (reserve_in, reserve_out) = swap_reserves(pool, direction);
    let quote = output_amount_result(
        amount_in,
        reserve_in,
        reserve_out,
        pool.fee_numerator,
        pool.fee_denominator,
    );
    if quote is Err {
        quote
    } else if quote->Ok_0 < min_amount_out {
        Err(CustomError::SlippageTooHigh)
    } else if quote->Ok_0 == reserve_out {
        Err(CustomError::InsufficientPoolReserves)
    } else if reserve_in + amount_in > u64::MAX {
        Err(CustomError::CalculationOverflow)
    } else {
        quote
    }
}

/// The pool after a swap in `direction` took in `amount_in` and paid out `amount_out`.
pub open spec fn after_swap(
    pool: LiquidityPool,
    amount_in: u64,
    amount_out: u64,
    direction: SwapDirection,
) -> LiquidityPool {
    match direction {
        SwapDirection::AToB => pool.with_balances(
            pool.reserve_a + amount_in,
            pool.reserve_b - amount_out,
            pool.total_lp_supply as int,
        ),
        SwapDirection::BToA => pool.with_balances(
            pool.reserve_a - amount_out,
            pool.reserve_b + amount_in,
            pool.total_lp_supply as int,
        ),
    }
}

/// A share of at most the whole supply redeems at most the reserve, and a
/// share of less than the whole supply redeems less than a positive reserve.
proof fn lemma_share_within_reserve(lp: int, supply: int, reserve: int)
    requires
        0 <= lp <= supply,
        0 < supply,
        0 <= reserve,
    ensures
        0 <= redeemed_share(lp, supply, reserve) <= reserve,
        lp == supply ==> redeemed_share(lp, supply, reserve) == reserve,
        lp < supply && 0 < reserve ==> redeemed_share(lp, supply, reserve) < reserve,
{
    let x = lp * reserve;
    assert(0 <= x <= supply * reserve) by (nonlinear_arith)
        requires 0 <= lp <= supply, 0 <= reserve, x == lp * reserve;
    lemma_div_is_ordered(0, x, supply);
    lemma_div_is_ordered(x, supply * reserve, supply);
    lemma_div_multiples_vanish(reserve, supply);
    if lp < supply && 0 < reserve {
        assert(x < supply * reserve) by (nonlinear_arith)
            requires 0 <= lp < supply, 0 < reserve, x == lp * reserve;
        lemma_fundamental_div_mod(x, supply);
        let q = x / supply;
        assert(q < reserve) by (nonlinear_arith)
            requires
                x == supply * q + x % supply,
                0 <= x % supply,
                x < supply * reserve,
                0 < supply,
        ;
    }
    if lp == supply {
        assert(x == supply * reserve) by (nonlinear_arith)
            requires lp == supply, x == lp * reserve;
    }
}

/// Creates an empty pool with fee `fee_numerator / fee_denominator`, which
/// must be below one.
pub fn initialize_pool(
    authority: Pubkey,
    token_a_mint: Pubkey,
    token_b_mint: Pubkey,
    token_a_vault: Pubkey,
    token_b_vault: Pubkey,
    lp_token_mint: Pubkey,
    fee_numerator: u64,
    fee_denominator: u64,
    bump: u8,
) -> (r: Result<LiquidityPool, CustomError>)
    ensures
        r is Err <==> fee_numerator >= fee_denominator,
        r is Err ==> r == Err::<LiquidityPool, CustomError>(CustomError::InvalidFeeParameters),
        r is Ok ==> r->Ok_0 == (LiquidityPool {
            authority,
            token_a_mint,
            token_b_mint,
            token_a_vault,
            token_b_vault,
            lp_token_mint,
            reserve_a: 0,
            reserve_b: 0,
            total_lp_supply: 0,
            fee_numerator,
            fee_denominator,
            bump,
        }),
        r is Ok ==> r->Ok_0.wf(),
{
    if fee_numerator >= fee_denominator {
        return Err(CustomError::InvalidFeeParameters);
    }
    Ok(
        LiquidityPool {
            authority,
            token_a_mint,
            token_b_mint,
            token_a_vault,
            token_b_vault,
            lp_token_mint,
            reserve_a: 0,
            reserve_b: 0,
            total_lp_supply: 0,
            fee_numerator,
            fee_denominator,
            bump,
        },
    )
}

/// Deposits `amount_a` and `amount_b` and mints LP tokens for them: the
/// geometric mean into an empty pool, else the pro-rata share of the scarcer
/// side once the deposit's ratio has passed the tolerance check. Returns the
/// LP tokens minted.
pub fn add_liquidity(pool: &mut LiquidityPool, amount_a: u64, amount_b: u64) -> (r: Result<u64, CustomError>)
    requires
        old(pool).wf(),
    ensures
        r == deposit_result(*old(pool), amount_a, amount_b),
        r is Ok ==> *final(pool) == old(pool).with_balances(
            old(pool).reserve_a + amount_a,
            old(pool).reserve_b + amount_b,
            old(pool).total_lp_supply + r->Ok_0,
        ),
        r is Err ==> *final(pool) == *old(pool),
        final(pool).wf(),
{
    let lp = if pool.total_lp_supply == 0 {
        match calculate_lp_tokens(amount_a, amount_b) {
            Ok(v) => v,
            Err(e) => return Err(e),
        }
    } else {
        if amount_a == 0 {
            return Err(CustomError::InvalidAmount);
        }
        match validate_ratio_imbalance(amount_a, amount_b, pool.reserve_a, pool.reserve_b) {
            Ok(()) => {},
            Err(e) => return Err(e),
        }
        match calculate_lp_tokens_for_add_liquidity(
            amount_a,
            amount_b,
            pool.reserve_a,
            pool.reserve_b,
            pool.total_lp_supply,
        ) {
            Ok(v) => v,
            Err(e) => return Err(e),
        }
    };
    let new_reserve_a = match pool.reserve_a.checked_add(amount_a) {
        Some(v) => v,
        None => return Err(CustomError::CalculationOverflow),
    };
    let new_reserve_b = match pool.reserve_b.checked_add(amount_b) {
        Some(v) => v,
        None => return Err(CustomError::CalculationOverflow),
    };
    let new_supply = match pool.total_lp_supply.checked_add(lp) {
        Some(v) => v,
        None => return Err(CustomError::CalculationOverflow),
    };
    pool.reserve_a = new_reserve_a;
    pool.reserve_b = new_reserve_b;
    pool.total_lp_supply = new_supply;
    Ok(lp)
}

/// Burns `lp_tokens_to_burn` LP tokens and releases their pro-rata share of
/// both reserves. Returns the amounts of A and B released.
pub fn remove_liquidity(pool: &mut LiquidityPool, lp_tokens_to_burn: u64) -> (r: Result<(u64, u64), CustomError>)
    requires
        old(pool).wf(),
    ensures
        r == withdrawal_result(*old(pool), lp_tokens_to_burn),
        r is Ok ==> *final(pool) == old(pool).with_balances(
            old(pool).reserve_a - r->Ok_0.0,
            old(pool).reserve_b - r->Ok_0.1,
            old(pool).total_lp_supply - lp_tokens_to_burn,
        ),
        r is Err ==> *final(pool) == *old(pool),
        final(pool).wf(),
{
    if lp_tokens_to_burn == 0 {
        return Err(CustomError::InvalidAmount);
    }
    if pool.total_lp_supply == 0 {
        return Err(CustomError::InsufficientLiquidity);
    }
    if lp_tokens_to_burn > pool.total_lp_supply {
        return Err(CustomError::InsufficientLPBalance);
    }
    proof {
        lemma_share_within_reserve(
            lp_tokens_to_burn as int,
            pool.total_lp_supply as int,
            pool.reserve_a as int,
        );
        lemma_share_within_reserve(
            lp_tokens_to_burn as int,
            pool.total_lp_supply as int,
            pool.reserve_b as int,
        );
    }
    let (amount_a, amount_b) = match calculate_remove_liquidity_amounts(
        lp_tokens_to_burn,
        pool.total_lp_supply,
        pool.reserve_a,
        pool.reserve_b,
    ) {
        Ok(v) => v,
        Err(e) => return Err(e),
    };
    if amount_a == 0 && amount_b == 0 {
        return Err(CustomError::InsufficientLiquidity);
    }
    pool.reserve_a = pool.reserve_a - amount_a;
    pool.reserve_b = pool.reserve_b - amount_b;
    pool.total_lp_supply = pool.total_lp_supply - lp_tokens_to_burn;
    Ok((amount_a, amount_b))
}

/// Swaps `amount_in` of one token for the other along the constant-product
/// curve. The whole input, fee included, joins the input reserve; the output
/// must reach `min_amount_out` and may not drain the output reserve. Returns
/// the output paid.
pub fn swap(pool: &mut LiquidityPool, amount_in: u64, min_amount_out: u64, swap_direction: SwapDirection) -> (r:
    Result<u64, CustomError>)
    requires
        old(pool).wf(),
    ensures
        r == swap_result(*old(pool), amount_in, min_amount_out, swap_direction),
        r is Ok ==> *final(pool) == after_swap(*old(pool), amount_in, r->Ok_0, swap_direction),
        r is Err ==> *final(pool) == *old(pool),
        final(pool).wf(),
{
    let (reserve_in, reserve_out) = match swap_direction {
        SwapDirection::AToB => (pool.reserve_a, pool.reserve_b),
        SwapDirection::BToA => (pool.reserve_b, pool.reserve_a),
    };
    let amount_out = match calculate_output_amount(
        amount_in,
        reserve_in,
        reserve_out,
        pool.fee_numerator,
        pool.fee_denominator,
    ) {
        Ok(v) => v,
        Err(e) => return Err(e),
    };
    if amount_out < min_amount_out {
        return Err(CustomError::SlippageTooHigh);
    }
    if amount_out == reserve_out {
        return Err(CustomError::InsufficientPoolReserves);
    }
    let new_reserve_in = match reserve_in.checked_add(amount_in) {
        Some(v) => v,
        None => return Err(CustomError::CalculationOverflow),
    };
    let new_reserve_out = reserve_out - amount_out;
    match swap_direction {
        SwapDirection::AToB => {
            pool.reserve_a = new_reserve_in;
            pool.reserve_b = new_reserve_out;
        },
        SwapDirection::BToA => {
            pool.reserve_b = new_reserve_in;
            pool.reserve_a = new_reserve_out;
        },
    }
    Ok(amount_out)
}

/// Adding liquidity and at once removing the LP tokens that it minted gives
/// back at most what was deposited, and exactly that on a pool that was empty.
pub proof fn lemma_add_then_remove_liquidity(pool: LiquidityPool, amount_a: u64, amount_b: u64)
    requires
        pool.wf(),
        deposit_result(pool, amount_a, amount_b) is Ok,
    ensures
        ({
            let lp = deposit_result(pool, amount_a, amount_b)->Ok_0;
            let funded = pool.with_balances(
                pool.reserve_a + amount_a,
                pool.reserve_b + amount_b,
                pool.total_lp_supply + lp,
            );
            let back = withdrawal_result(funded, lp);
            &&& back is Ok ==> back->Ok_0.0 <= amount_a && back->Ok_0.1 <= amount_b
            &&& pool.total_lp_supply == 0 ==> back == Ok::<(u64, u64), CustomError>(
                (amount_a, amount_b),
            )
        }),
{
    let (a, b) = (amount_a as int, amount_b as int);
    if pool.total_lp_supply == 0 {
        lemma_floor_sqrt_exists(a * b);
        let lp = floor_sqrt(a * b);
        lemma_sqrt_between(a, b, lp);
        lemma_first_deposit_then_redeem(a, b, lp);
    } else {
        lemma_deposit_then_redeem(
            a,
            b,
            pool.reserve_a as int,
            pool.reserve_b as int,
            pool.total_lp_supply as int,
        );
    }
}

} // verus!
