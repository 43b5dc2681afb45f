//! Limit-order lifecycle: expiry before trigger, and the moves out of
//! `Pending` into its three terminal states.
use vstd::prelude::*;
use crate::errors::CustomError;
use crate::price::{check_price_condition, price_condition};
use crate::state::{LimitOrder, OrderStatus};

verus! {

/// What a check of a limit order at a given time and pool price decides.
#[derive(Clone, Copy, Debug, PartialEq, Eq, Structural)]
pub enum OrderDecision {
    /// The order is no longer pending; nothing is to be done.
    Closed,
    /// The order is past its expiry: release the escrow.
    Expire,
    /// The price condition holds: run the swap.
    Execute,
    /// The price condition does not hold yet.
    Wait,
}

/// The decision for `order` at `current_time` with the pool at `pool_price`;
/// expiry is checked before the price.
pub open spec fn order_decision(order: LimitOrder, current_time: i64, pool_price: u64, is_sell: bool) -> OrderDecision {
    if order.status != OrderStatus::Pending {
        OrderDecision::Closed
    } else if current_time > order.expires_at {
        OrderDecision::Expire
    } else if price_condition(pool_price, order.target_price, is_sell) {
        OrderDecision::Execute
    } else {
        OrderDecision::Wait
    }
}

/// The order with only its status replaced.
pub open spec fn with_status(order: LimitOrder, status: OrderStatus) -> LimitOrder {
    LimitOrder { status, ..order }
}

/// Decides what to do with `order` at `current_time` with the pool at
/// `pool_price`; `is_sell` tells whether the order sells the pool's token A.
pub fn evaluate_limit_order(order: &LimitOrder, current_time: i64, pool_price: u64, is_sell: bool) -> (r: OrderDecision)
    ensures
        r == order_decision(*order, current_time, pool_price, is_sell),
{
    if order.status != OrderStatus::Pending {
        OrderDecision::Closed
    } else if current_time > order.expires_at {
        OrderDecision::Expire
    } else if check_price_condition(pool_price, order.target_price, is_sell) {
        OrderDecision::Execute
    } else {
        OrderDecision::Wait
    }
}

/// Records the swap that filled a pending order with `amount_out`; an output
/// below the order's minimum is refused and the order stays pending. An
/// order that is not pending is left as it is.
pub fn record_order_execution(order: &mut LimitOrder, amount_out: u64) -> (r: Result<(), CustomError>)
    ensures
        old(order).status != OrderStatus::Pending ==> r == Err::<(), CustomError>(
            CustomError::OrderNotPending,
        ),
        old(order).status == OrderStatus::Pending && amount_out < old(order).minimum_receive ==> r
            == Err::<(), CustomError>(CustomError::SlippageTooHigh),
        old(order).status == OrderStatus::Pending && amount_out >= old(order).minimum_receive ==> r
            is Ok,
        r is Ok ==> *final(order) == with_status(*old(order), OrderStatus::Executed),
        r is Err ==> *final(order) == *old(order),
{
    if order.status != OrderStatus::Pending {
        return Err(CustomError::OrderNotPending);
    }
    if amount_out < order.minimum_receive {
        return Err(CustomError::SlippageTooHigh);
    }
    order.status = OrderStatus::Executed;
    Ok(())
}

/// Marks a pending order past its expiry as expired. Returns whether it did.
pub fn expire_order(order: &mut LimitOrder, current_time: i64) -> (r: bool)
    ensures
        r == (old(order).status == OrderStatus::Pending && current_time > old(order).expires_at),
        r ==> *final(order) == with_status(*old(order), OrderStatus::Expired),
        !r ==> *final(order) == *old(order),
{
    if order.status == OrderStatus::Pending && current_time > order.expires_at {
        order.status = OrderStatus::Expired;
        true
    } else {
        false
    }
}

/// Cancels a pending order. Returns whether it did.
pub fn cancel_order(order: &mut LimitOrder) -> (r: bool)
    ensures
        r == (old(order).status == OrderStatus::Pending),
        r ==> *final(order) == with_status(*old(order), OrderStatus::Cancelled),
        !r ==> *final(order) == *old(order),
{
    if order.status == OrderStatus::Pending {
        order.status = OrderStatus::Cancelled;
        true
    } else {
        false
    }
}

} // verus!
