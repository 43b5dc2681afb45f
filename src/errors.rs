//! The failures that the AMM formulas and pool operations report.
use vstd::prelude::*;

verus! {

/// Typed failure of an AMM computation or pool operation.
#[derive(Clone, Copy, Debug, PartialEq, Eq, Structural)]
pub enum CustomError {
    /// A first deposit into an empty pool has a zero-valued side.
    InvalidInitialDeposit,
    /// A reserve or supply used as a divisor is zero, or a computed output or
    /// removal would be zero.
    InsufficientLiquidity,
    /// The computed swap output is below the caller's floor.
    SlippageTooHigh,
    /// The fee fraction is not below one.
    InvalidFeeParameters,
    /// A checked arithmetic step overflowed, underflowed or divided by zero.
    CalculationOverflow,
    /// A deposit's ratio deviates from the pool's beyond the tolerance.
    RatioImbalance,
    /// The caller's token balance does not cover the operation.
    InsufficientBalance,
    /// The LP tokens to burn exceed what exists.
    InsufficientLPBalance,
    /// A required amount is zero.
    InvalidAmount,
    /// The operation would drain a reserve of the pool.
    InsufficientPoolReserves,
    /// The limit order has already left the pending state.
    OrderNotPending,
}

impl CustomError {
    /// The human-readable message of this failure.
    pub fn message(&self) -> (r: &'static str)
        ensures
            r@ == match *self {
            CustomError::InvalidInitialDeposit => "Initial deposits must be greater than zero"@,
            CustomError::InsufficientLiquidity => "Insufficient liquidity in pool"@,
            CustomError::SlippageTooHigh => "Slippage tolerance exceeded"@,
            CustomError::InvalidFeeParameters => "Invalid fee parameters"@,
            CustomError::CalculationOverflow => "Overflow detected in calculation"@,
            CustomError::RatioImbalance => "Pool ratio imbalance exceeds tolerance"@,
            CustomError::InsufficientBalance => "Insufficient user token balance"@,
            CustomError::InsufficientLPBalance => "Insufficient LP token balance"@,
            CustomError::InvalidAmount => "Invalid amount: must be greater than zero"@,
            CustomError::InsufficientPoolReserves => "Insufficient pool reserves"@,
            CustomError::OrderNotPending => "Order is no longer pending"@,
            },
    {
        match self {
            CustomError::InvalidInitialDeposit => "Initial deposits must be greater than zero",
            CustomError::InsufficientLiquidity => "Insufficient liquidity in pool",
            CustomError::SlippageTooHigh => "Slippage tolerance exceeded",
            CustomError::InvalidFeeParameters => "Invalid fee parameters",
            CustomError::CalculationOverflow => "Overflow detected in calculation",
            CustomError::RatioImbalance => "Pool ratio imbalance exceeds tolerance",
            CustomError::InsufficientBalance => "Insufficient user token balance",
            CustomError::InsufficientLPBalance => "Insufficient LP token balance",
            CustomError::InvalidAmount => "Invalid amount: must be greater than zero",
            CustomError::InsufficientPoolReserves => "Insufficient pool reserves",
            CustomError::OrderNotPending => "Order is no longer pending",
        }
    }
}

} // verus!
