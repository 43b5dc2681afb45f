//! Constant-product AMM arithmetic: integer square root, LP-token issuance and
//! redemption, fee-adjusted swap output, spot price and limit-order triggers,
//! and the pool-level operations built from them.
pub mod errors;
pub mod math;
pub mod curve;
pub mod liquidity;
pub mod price;
pub mod state;
pub mod pool;
pub mod order;
