//! Records of pools, liquidity positions and limit orders.
use vstd::prelude::*;

verus! {

/// A 32-byte account identity: an authority, a token mint or a vault.
#[derive(Clone, Copy, Debug, PartialEq, Eq)]
pub struct Pubkey {
    pub bytes: [u8; 32],
}

/// A constant-product pool of two tokens.
#[derive(Clone, Copy, Debug)]
pub struct LiquidityPool {
    pub authority: Pubkey,
    pub token_a_mint: Pubkey,
    pub token_b_mint: Pubkey,
    pub token_a_vault: Pubkey,
    pub token_b_vault: Pubkey,
    pub lp_token_mint: Pubkey,
    pub reserve_a: u64,
    pub reserve_b: u64,
    pub total_lp_supply: u64,
    /// The fee is `fee_numerator / fee_denominator` of each swap's input.
    pub fee_numerator: u64,
    pub fee_denominator: u64,
    pub bump: u8,
}

impl LiquidityPool {
    /// The fee is a fraction below one, a pool with LP tokens out holds both
    /// tokens, and a pool without LP tokens out holds nothing.
    pub open spec fn wf(&self) -> bool {
        &&& self.fee_numerator < self.fee_denominator
        &&& self.total_lp_supply > 0 ==> self.reserve_a > 0 && self.reserve_b > 0
        &&& self.total_lp_supply == 0 ==> self.reserve_a == 0 && self.reserve_b == 0
    }

    /// This pool with its reserves and LP supply replaced.
    pub open spec fn with_balances(self, reserve_a: int, reserve_b: int, total_lp_supply: int) -> LiquidityPool {
        LiquidityPool {
            reserve_a: reserve_a as u64,
            reserve_b: reserve_b as u64,
            total_lp_supply: total_lp_supply as u64,
            ..self
        }
    }
}

/// One provider's LP tokens in one pool.
#[derive(Clone, Copy, Debug)]
pub struct UserLiquidityPosition {
    pub owner: Pubkey,
    pub pool: Pubkey,
    pub lp_tokens: u64,
    pub deposit_timestamp: i64,
    pub last_claim_timestamp: i64,
    pub total_rush_claimed: u64,
}

/// Lifecycle of a limit order: `Pending` until it becomes one of the three
/// terminal states.
#[derive(Clone, Copy, Debug, PartialEq, Eq, Structural)]
pub enum OrderStatus {
    Pending,
    Executed,
    Cancelled,
    Expired,
}

/// A limit order with its sell amount held in escrow.
#[derive(Clone, Copy, Debug)]
pub struct LimitOrder {
    pub owner: Pubkey,
    pub pool: Pubkey,
    pub sell_token: Pubkey,
    pub buy_token: Pubkey,
    pub sell_amount: u64,
    /// Price with six implied decimals.
    pub target_price: u64,
    pub minimum_receive: u64,
    pub created_at: i64,
    pub expires_at: i64,
    pub status: OrderStatus,
    pub bump: u8,
}

/// The side of a swap: which reserve the input joins.
#[derive(Clone, Copy, Debug, PartialEq, Eq, Structural)]
pub enum SwapDirection {
    AToB,
    BToA,
}

} // verus!
