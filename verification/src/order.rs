//! Order-request values handed to the execution runtime.
//!
//! The engine around this library converts these plain values into its own
//! transport types; the library only decides what to order.

use vstd::prelude::*;
use crate::dec::Dec;

verus! {

/// Side of an order.
#[derive(Clone, Copy, Debug, PartialEq, Eq, Structural)]
pub enum Side {
    Buy,
    Sell,
}

/// Kind of an order.
#[derive(Clone, Copy, Debug, PartialEq, Eq, Structural)]
pub enum OrderKind {
    Limit,
    Market,
}

/// How long an order stays valid.
#[derive(Clone, Copy, Debug, PartialEq, Eq, Structural)]
pub enum TimeInForce {
    GoodUntilEndOfDay,
    ImmediateOrCancel,
}

/// Which strategy issued an order.
#[derive(Clone, Copy, Debug, PartialEq, Eq, Structural)]
pub enum StrategyTag {
    Grid,
    Vwap,
    SmaAbove,
    SmaTrend,
    StrategyA,
    StrategyB,
}

/// Request to open an order.
#[derive(Clone, Copy, Debug)]
pub struct OrderRequestOpen {
    /// Exchange identity the order goes to.
    pub exchange: u64,
    /// Instrument identity the order is for.
    pub instrument: u64,
    /// Strategy that issued the order.
    pub strategy: StrategyTag,
    /// Buy or sell.
    pub side: Side,
    /// Limit price.
    pub price: Dec,
    /// Quantity to order.
    pub quantity: Dec,
    /// Kind of order.
    pub kind: OrderKind,
    /// Validity of the order.
    pub time_in_force: TimeInForce,
}

/// Request to cancel an order (never produced by these strategies).
#[derive(Clone, Copy, Debug)]
pub struct OrderRequestCancel {
    /// Exchange identity the cancellation goes to.
    pub exchange: u64,
    /// Instrument identity the cancellation is for.
    pub instrument: u64,
}

} // verus!
