//! Per-instrument composite market state: the live price plus the three
//! streaming indicators, updated on every market event and read by the
//! strategies once per decision cycle.

use vstd::prelude::*;
use crate::dec::{Dec, sum_abs_units};
use crate::grid::InstrumentSnapshot;
use crate::rsi::{RSI, rsi_step_rel, rsi_update_ok};
use crate::sma::{SMA, slide_window};
use crate::vwap::VwapIndicator;
use crate::vwap_strategy::VwapSnapshot;

verus! {

/// One public trade carried by a market event.
#[derive(Clone, Copy, Debug)]
pub struct Trade {
    /// Traded price.
    pub price: Dec,
    /// Traded amount.
    pub amount: Dec,
}

/// A market observation handed in by the data transport: the price it
/// implies (if any) and the trade it carries (if any), stamped with the
/// receive time in milliseconds.
#[derive(Clone, Copy, Debug)]
pub struct MarketEvent {
    /// Receive timestamp (milliseconds).
    pub time_received: i64,
    /// Price implied by the event, if it carries one.
    pub price: Option<Dec>,
    /// Public trade carried by the event, if any.
    pub trade: Option<Trade>,
}

/// Composite per-instrument state: last known price plus the indicators.
#[derive(Clone, Debug)]
pub struct AlgorithmData {
    /// Last price implied by the processed market events.
    pub market_price: Option<Dec>,
    /// Relative-strength index over the price stream.
    pub rsi: RSI,
    /// Volume-weighted average price over the trade stream.
    pub vwap: VwapIndicator,
    /// Simple moving average over the price stream.
    pub sma: SMA,
}

impl AlgorithmData {
    /// Structural invariant.
    pub open spec fn wf(self) -> bool {
        &&& self.rsi.wf()
        &&& self.vwap.wf()
        &&& self.sma.wf()
        &&& (self.market_price matches Some(p) ==> p.wf())
    }

    /// The price fed to the indicators when `event` arrives: the event's
    /// price if it carries one, else the last known price.
    pub open spec fn fed_price(self, event: MarketEvent) -> Option<Dec> {
        if event.price is Some {
            event.price
        } else {
            self.market_price
        }
    }

    /// What processing `event` needs of the indicator states (machine
    /// limits of the decimal range).
    pub open spec fn process_ok(self, event: MarketEvent) -> bool {
        &&& event.time_received >= 0
        &&& (event.price matches Some(p) ==> p.wf())
        &&& (event.trade matches Some(t) ==> t.price.wf() && t.amount.wf())
        &&& (self.fed_price(event) matches Some(p) ==> {
            &&& sum_abs_units(self.sma.prices@.push(p)) <= crate::dec::MAX_UNITS as int
            &&& rsi_update_ok(self.rsi, p, event.time_received)
        })
        &&& (event.trade matches Some(t) ==> self.vwap.update_ok(
            t.price,
            t.amount,
            event.time_received as int,
        ))
    }

    /// Creates the composite with the given index period, a daily
    /// volume-weighted average, and a 14-sample moving average.
    pub fn new(rsi_period: usize) -> (r: AlgorithmData)
        ensures
            r.market_price is None,
            r.rsi.period == rsi_period,
            r.rsi.last_price is None,
            r.vwap.reset_period == 86_400_000u64,
            r.sma.period == 14,
            r.sma.prices@.len() == 0,
            r.wf(),
    {
        AlgorithmData {
            market_price: None,
            rsi: RSI::new(rsi_period),
            vwap: VwapIndicator::daily(),
            sma: SMA::new(14),
        }
    }

    /// Creates the composite with custom index and average periods.
    pub fn new_with_periods(rsi_period: usize, sma_period: usize) -> (r: AlgorithmData)
        requires
            1 <= sma_period,
            sma_period as int <= 9_223_372_036_854_775_807int,
        ensures
            r.market_price is None,
            r.rsi.period == rsi_period,
            r.rsi.last_price is None,
            r.vwap.reset_period == 86_400_000u64,
            r.sma.period == sma_period,
            r.sma.prices@.len() == 0,
            r.wf(),
    {
        AlgorithmData {
            market_price: None,
            rsi: RSI::new(rsi_period),
            vwap: VwapIndicator::daily(),
            sma: SMA::new(sma_period),
        }
    }

    /// Creates the composite with a custom volume-weighted-average reset
    /// period (milliseconds).
    pub fn new_with_vwap(rsi_period: usize, vwap_reset_period_ms: u64) -> (r: AlgorithmData)
        requires
            vwap_reset_period_ms as int <= 9_223_372_036_854_775_807int,
        ensures
            r.market_price is None,
            r.rsi.period == rsi_period,
            r.rsi.last_price is None,
            r.vwap.reset_period == vwap_reset_period_ms,
            r.sma.period == 14,
            r.sma.prices@.len() == 0,
            r.wf(),
    {
        AlgorithmData {
            market_price: None,
            rsi: RSI::new(rsi_period),
            vwap: VwapIndicator::new(vwap_reset_period_ms),
            sma: SMA::new(14),
        }
    }

    /// Last known market price.
    pub fn price(&self) -> (r: Option<Dec>)
        ensures
            r == self.market_price,
    {
        self.market_price
    }

    /// Applies one market event: remembers the price it implies, feeds the
    /// current price (if any is known) to the index and the moving average,
    /// and feeds a carried trade to the volume-weighted average.
    pub fn process(&mut self, event: &MarketEvent)
        requires
            old(self).wf(),
            old(self).process_ok(*event),
        ensures
            final(self).wf(),
            final(self).market_price == old(self).fed_price(*event),
            final(self).sma.period == old(self).sma.period,
            old(self).fed_price(*event) matches Some(p) ==> {
                &&& final(self).sma.prices@ == slide_window(
                    old(self).sma.prices@,
                    p,
                    old(self).sma.period as nat,
                )
                &&& rsi_step_rel(old(self).rsi, final(self).rsi, p, event.time_received)
            },
            old(self).fed_price(*event) is None ==> final(self).sma == old(self).sma
                && final(self).rsi == old(self).rsi,
            event.trade matches Some(t) ==> final(self).vwap == old(self).vwap.step(
                t.price,
                t.amount,
                event.time_received as int,
            ),
            event.trade is None ==> final(self).vwap == old(self).vwap,
    {
        if let Some(p) = event.price {
            self.market_price = Some(p);
        }
        if let Some(price) = self.market_price {
            self.rsi.update_with_time(price, event.time_received);
            self.sma.update(price);
        }
        if let Some(trade) = event.trade {
            self.vwap.update(trade.price, trade.amount, event.time_received);
        }
    }

    /// Snapshot of this instrument for the grid strategy.
    pub fn snapshot(&self, exchange: u64, instrument: u64) -> (r: InstrumentSnapshot)
        requires
            self.wf(),
        ensures
            r.exchange == exchange,
            r.instrument == instrument,
            r.price == self.market_price,
            r.sma is Some <==> self.sma.prices@.len() == self.sma.period,
            r.sma matches Some(v) ==> v.units == self.sma.value_units(),
    {
        InstrumentSnapshot {
            exchange,
            instrument,
            price: self.price(),
            sma: self.sma.value(),
        }
    }

    /// Snapshot of this instrument for the crossover strategy.
    pub fn vwap_snapshot(&self, exchange: u64, instrument: u64) -> (r: VwapSnapshot)
        requires
            self.wf(),
        ensures
            r.exchange == exchange,
            r.instrument == instrument,
            r.price == self.market_price,
            r.vwap == self.vwap.current_vwap,
            r.rsi is Some <==> self.rsi.avg_gain is Some,
    {
        VwapSnapshot {
            exchange,
            instrument,
            price: self.price(),
            vwap: self.vwap.value(),
            rsi: self.rsi.value(),
        }
    }
}

impl Default for AlgorithmData {
    /// The composite with a 14-sample index.
    fn default() -> (r: Self)
        ensures
            r.rsi.period == 14,
            r.market_price is None,
            r.wf(),
    {
        AlgorithmData::new(14)
    }
}

} // verus!
