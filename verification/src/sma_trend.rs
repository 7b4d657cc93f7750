//! Simple trend-following strategy: buy when the last close is above the
//! five-sample moving average and no position is open.

use vstd::prelude::*;
use crate::dec::{
    Dec, SCALE, MAX_UNITS, div_units, sum_units, sum_abs_units, lemma_sum_le_sum_abs,
    lemma_div_units_by_whole,
};
use crate::order::{OrderKind, OrderRequestCancel, OrderRequestOpen, Side, StrategyTag, TimeInForce};
use crate::sma::sum_window;

verus! {

/// Window length of the average.
pub const TREND_SMA_PERIOD: usize = 5;

/// Read-only view of one instrument for a decision cycle.
#[derive(Clone, Debug)]
pub struct SmaTrendSnapshot {
    /// Exchange identity.
    pub exchange: u64,
    /// Instrument identity.
    pub instrument: u64,
    /// Recent closing prices, oldest first.
    pub closes: Vec<Dec>,
    /// Whether this strategy already holds a position on the instrument.
    pub has_position: bool,
}

/// Whether a snapshot triggers a buy: at least five closes, the last one
/// strictly above the mean of all retained closes over the period, and no
/// open position.
pub open spec fn trend_fires(closes: Seq<Dec>, has_position: bool) -> bool {
    &&& closes.len() >= TREND_SMA_PERIOD as int
    &&& !has_position
    &&& closes.last().units > div_units(
        sum_units(closes),
        (TREND_SMA_PERIOD as int) * (SCALE as int),
    )
}

/// The market buy order emitted for one triggered instrument: a fixed
/// quantity of 0.01, immediate-or-cancel, with no limit price.
pub open spec fn trend_order_of(exchange: u64, instrument: u64) -> OrderRequestOpen {
    OrderRequestOpen {
        exchange,
        instrument,
        strategy: StrategyTag::SmaTrend,
        side: Side::Buy,
        price: (Dec { units: 0 }),
        quantity: (Dec { units: 10_000_000 }),
        kind: OrderKind::Market,
        time_in_force: TimeInForce::ImmediateOrCancel,
    }
}

/// Orders for every triggered snapshot, in instrument order.
pub open spec fn trend_orders(snaps: Seq<SmaTrendSnapshot>) -> Seq<OrderRequestOpen>
    decreases snaps.len(),
{
    if snaps.len() == 0 {
        Seq::<OrderRequestOpen>::empty()
    } else {
        trend_orders(snaps.drop_last()) + if trend_fires(
            snaps.last().closes@,
            snaps.last().has_position,
        ) {
            seq![trend_order_of(snaps.last().exchange, snaps.last().instrument)]
        } else {
            Seq::<OrderRequestOpen>::empty()
        }
    }
}

/// Trend-following strategy over the shared instrument data.
#[derive(Clone, Copy, Debug, PartialEq, Eq, Structural)]
pub struct SmaStrategy;

impl SmaStrategy {
    /// Creates the strategy.
    pub fn new() -> (r: SmaStrategy)
        ensures
            r == SmaStrategy,
    {
        SmaStrategy
    }

    /// Emits one market buy per instrument whose last close is above its
    /// five-sample average while no position is open; cancels nothing.
    pub fn generate_algo_orders(&self, instruments: &Vec<SmaTrendSnapshot>) -> (r: (
        Vec<OrderRequestCancel>,
        Vec<OrderRequestOpen>,
    ))
        requires
            forall|i: int|
                0 <= i < instruments@.len() ==> {
                    &&& (forall|j: int|
                        0 <= j < (#[trigger] instruments@[i]).closes@.len() ==> (
                        #[trigger] instruments@[i].closes@[j]).wf())
                    &&& sum_abs_units(instruments@[i].closes@) <= MAX_UNITS as int
                },
        ensures
            r.0@ == Seq::<OrderRequestCancel>::empty(),
            r.1@ == trend_orders(instruments@),
    {
        let mut open_orders: Vec<OrderRequestOpen> = Vec::new();
        let mut i: usize = 0;
        proof {
            assert(instruments@.take(0) =~= Seq::<SmaTrendSnapshot>::empty());
        }
        while i < instruments.len()
            invariant
                0 <= i <= instruments@.len(),
                forall|k: int|
                    0 <= k < instruments@.len() ==> {
                        &&& (forall|j: int|
                            0 <= j < (#[trigger] instruments@[k]).closes@.len() ==> (
                            #[trigger] instruments@[k].closes@[j]).wf())
                        &&& sum_abs_units(instruments@[k].closes@) <= MAX_UNITS as int
                    },
                open_orders@ == trend_orders(instruments@.take(i as int)),
            decreases instruments@.len() - i,
        {
            proof {
                assert(instruments@.take(i as int + 1).drop_last() =~= instruments@.take(
                    i as int,
                ));
                assert(instruments@.take(i as int + 1).last() == instruments@[i as int]);
            }
            let snap: &SmaTrendSnapshot = &instruments[i];
            if snap.closes.len() >= TREND_SMA_PERIOD {
                let last_price: Dec = snap.closes[snap.closes.len() - 1];
                let sum: Dec = sum_window(&snap.closes);
                proof {
                    lemma_sum_le_sum_abs(snap.closes@);
                    lemma_div_units_by_whole(sum_units(snap.closes@), TREND_SMA_PERIOD as int);
                }
                let sma: Dec = sum.div(Dec::from_int(TREND_SMA_PERIOD as i64));
                if last_price.gt(sma) && !snap.has_position {
                    open_orders.push(
                        OrderRequestOpen {
                            exchange: snap.exchange,
                            instrument: snap.instrument,
                            strategy: StrategyTag::SmaTrend,
                            side: Side::Buy,
                            price: Dec::zero(),
                            quantity: Dec::from_units(10_000_000),
                            kind: OrderKind::Market,
                            time_in_force: TimeInForce::ImmediateOrCancel,
                        },
                    );
                }
            }
            i = i + 1;
        }
        proof {
            assert(instruments@.take(instruments@.len() as int) =~= instruments@);
        }
        (Vec::new(), open_orders)
    }
}

impl Default for SmaStrategy {
    /// Creates the strategy.
    fn default() -> (r: Self)
        ensures
            r == SmaStrategy,
    {
        SmaStrategy::new()
    }
}

} // verus!
