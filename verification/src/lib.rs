//! Signal-generation core of a grid-trading strategy: streaming indicators
//! (SMA, RSI, VWAP), a position sizer, and per-instrument strategy state
//! machines that turn price observations into buy/sell order requests.
//!
//! All money and price arithmetic is exact base-10 fixed point ([`dec::Dec`]);
//! timestamps are plain milliseconds. The engine runtime around this library
//! converts its own market-data and order types to and from these plain values.

pub mod config;
pub mod data;
pub mod dec;
pub mod grid;
pub mod levels;
pub mod multi;
pub mod order;
pub mod position;
pub mod rsi;
pub mod rsi_sampled;
pub mod sma;
pub mod sma_above;
pub mod sma_trend;
pub mod vwap;
pub mod vwap_strategy;
