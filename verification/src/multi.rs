//! Two coordinated strategies sharing per-instrument calculations: a price
//! history with 20- and 50-sample moving averages and a market-trend
//! classification, plus per-strategy position slots and position-closing
//! order generation.

use vstd::prelude::*;
use crate::data::MarketEvent;
use crate::dec::{
    Dec, SCALE, MAX_UNITS, abs_int, dec_of, div_units, sum_units, sum_abs_units,
    lemma_sum_le_sum_abs, lemma_sum_abs_take_le, lemma_div_units_by_whole,
};
use crate::order::{OrderKind, OrderRequestCancel, OrderRequestOpen, Side, StrategyTag, TimeInForce};
use crate::sma::{slide_window, sum_window, lemma_sum_abs_drop_first};

verus! {

/// Bound on the shared price history.
pub const SHARED_HISTORY_CAP: usize = 50;

/// Broad market direction from the two moving averages.
#[derive(Clone, Copy, Debug, PartialEq, Eq, Structural)]
pub enum MarketTrend {
    Neutral,
    Bullish,
    Bearish,
}

impl Default for MarketTrend {
    /// Neutral until both averages are defined.
    fn default() -> (r: Self)
        ensures
            r == MarketTrend::Neutral,
    {
        MarketTrend::Neutral
    }
}

/// An open position held by one strategy.
#[derive(Clone, Copy, Debug)]
pub struct Position {
    /// Side of the position.
    pub side: Side,
    /// Absolute quantity held.
    pub quantity_abs: Dec,
}

/// Indicators shared by both strategies.
#[derive(Clone, Debug)]
pub struct SharedIndicators {
    /// Mean of the last 20 prices, once 20 have been seen.
    pub moving_average_20: Option<Dec>,
    /// Mean of the whole retained history, once it is full.
    pub moving_average_50: Option<Dec>,
    /// Externally supplied index value, if any.
    pub rsi: Option<Dec>,
    /// Externally supplied volatility, if any.
    pub volatility: Option<Dec>,
    /// Last prices, oldest first, at most 50.
    pub price_history: Vec<Dec>,
}

/// Metrics shared by both strategies.
#[derive(Clone, Copy, Debug)]
pub struct SharedMetrics {
    /// Volume accumulated so far.
    pub total_volume: Dec,
    /// Price momentum, if computed.
    pub price_momentum: Option<Dec>,
    /// Current market-trend classification.
    pub market_trend: MarketTrend,
}

/// Per-strategy slice of the shared instrument data.
#[derive(Clone, Copy, Debug)]
pub struct StrategyCustomInstrumentData {
    /// The strategy's open position, if any.
    pub position: Option<Position>,
}

impl StrategyCustomInstrumentData {
    /// Creates the slice at engine start; no position is open.
    pub fn init(_time_engine_start: i64) -> (r: StrategyCustomInstrumentData)
        ensures
            r.position is None,
    {
        StrategyCustomInstrumentData { position: None }
    }
}

impl Default for StrategyCustomInstrumentData {
    /// No position open.
    fn default() -> (r: Self)
        ensures
            r.position is None,
    {
        StrategyCustomInstrumentData { position: None }
    }
}

/// Trend from the two averages: bullish when the short one is above the
/// long one, bearish below, neutral when equal.
pub open spec fn trend_of_averages(ma20: Dec, ma50: Dec) -> MarketTrend {
    if ma20.units > ma50.units {
        MarketTrend::Bullish
    } else if ma20.units < ma50.units {
        MarketTrend::Bearish
    } else {
        MarketTrend::Neutral
    }
}

/// Per-instrument composite shared by both strategies.
#[derive(Clone, Debug)]
pub struct MultiStrategyCustomInstrumentData {
    /// Last price implied by the processed market events.
    pub market_price: Option<Dec>,
    /// First strategy's slice.
    pub strategy_a: StrategyCustomInstrumentData,
    /// Second strategy's slice.
    pub strategy_b: StrategyCustomInstrumentData,
    /// Indicators shared by both strategies.
    pub shared_indicators: SharedIndicators,
    /// Metrics shared by both strategies.
    pub shared_metrics: SharedMetrics,
}

impl MultiStrategyCustomInstrumentData {
    /// Structural invariant.
    pub open spec fn wf(self) -> bool {
        &&& (self.market_price matches Some(p) ==> p.wf())
        &&& self.shared_indicators.price_history@.len() <= SHARED_HISTORY_CAP as int
        &&& (forall|i: int|
            0 <= i < self.shared_indicators.price_history@.len() ==> (
            #[trigger] self.shared_indicators.price_history@[i]).wf())
        &&& sum_abs_units(self.shared_indicators.price_history@) <= MAX_UNITS as int
        &&& (self.shared_indicators.moving_average_20 matches Some(v) ==> v.wf())
        &&& (self.shared_indicators.moving_average_50 matches Some(v) ==> v.wf())
    }

    /// Creates the composite at engine start.
    pub fn init(time_engine_start: i64) -> (r: MultiStrategyCustomInstrumentData)
        ensures
            r.market_price is None,
            r.strategy_a.position is None,
            r.strategy_b.position is None,
            r.shared_indicators.moving_average_20 is None,
            r.shared_indicators.moving_average_50 is None,
            r.shared_indicators.price_history@.len() == 0,
            r.shared_metrics.market_trend == MarketTrend::Neutral,
            r.wf(),
    {
        MultiStrategyCustomInstrumentData {
            market_price: None,
            strategy_a: StrategyCustomInstrumentData::init(time_engine_start),
            strategy_b: StrategyCustomInstrumentData::init(time_engine_start),
            shared_indicators: SharedIndicators {
                moving_average_20: None,
                moving_average_50: None,
                rsi: None,
                volatility: None,
                price_history: Vec::new(),
            },
            shared_metrics: SharedMetrics {
                total_volume: Dec::zero(),
                price_momentum: None,
                market_trend: MarketTrend::Neutral,
            },
        }
    }

    /// Last known market price.
    pub fn price(&self) -> (r: Option<Dec>)
        ensures
            r == self.market_price,
    {
        self.market_price
    }

    /// Mean of the last 20 entries of a full-enough history.
    pub open spec fn ma20_units(h: Seq<Dec>) -> int {
        div_units(sum_units(h.subrange(h.len() - 20, h.len() as int)), 20 * SCALE as int)
    }

    /// Mean of the whole history.
    pub open spec fn ma50_units(h: Seq<Dec>) -> int {
        div_units(sum_units(h), (h.len() as int) * (SCALE as int))
    }

    /// Slides the shared history and recomputes the averages and the trend.
    ///
    /// The 20-sample average is defined once 20 prices were seen; the long
    /// average once the history is full; the trend is reclassified whenever
    /// both are defined.
    pub fn update_shared_calculations(&mut self, price: Dec)
        requires
            old(self).wf(),
            price.wf(),
            sum_abs_units(old(self).shared_indicators.price_history@.push(price))
                <= MAX_UNITS as int,
        ensures
            final(self).wf(),
            final(self).market_price == old(self).market_price,
            final(self).strategy_a == old(self).strategy_a,
            final(self).strategy_b == old(self).strategy_b,
            final(self).shared_indicators.rsi == old(self).shared_indicators.rsi,
            final(self).shared_indicators.volatility == old(self).shared_indicators.volatility,
            final(self).shared_metrics.total_volume == old(self).shared_metrics.total_volume,
            final(self).shared_metrics.price_momentum == old(self).shared_metrics.price_momentum,
            ({
                let h1 = slide_window(
                    old(self).shared_indicators.price_history@,
                    price,
                    SHARED_HISTORY_CAP as nat,
                );
                let ma20 = if h1.len() >= 20 {
                    Some(dec_of(Self::ma20_units(h1)))
                } else {
                    old(self).shared_indicators.moving_average_20
                };
                let ma50 = if h1.len() >= SHARED_HISTORY_CAP as int {
                    Some(dec_of(Self::ma50_units(h1)))
                } else {
                    old(self).shared_indicators.moving_average_50
                };
                &&& final(self).shared_indicators.price_history@ == h1
                &&& final(self).shared_indicators.moving_average_20 == ma20
                &&& final(self).shared_indicators.moving_average_50 == ma50
                &&& final(self).shared_metrics.market_trend == (match (ma20, ma50) {
                    (Some(a), Some(b)) => trend_of_averages(a, b),
                    _ => old(self).shared_metrics.market_trend,
                })
            }),
    {
        self.shared_indicators.price_history.push(price);
        if self.shared_indicators.price_history.len() > SHARED_HISTORY_CAP {
            proof {
                lemma_sum_abs_drop_first(self.shared_indicators.price_history@);
            }
            self.shared_indicators.price_history.remove(0);
        }

        if self.shared_indicators.price_history.len() >= 20 {
            let sum_20: Dec = sum_recent(&self.shared_indicators.price_history, 20);
            proof {
                lemma_div_units_by_whole(
                    sum_units(
                        self.shared_indicators.price_history@.subrange(
                            self.shared_indicators.price_history@.len() - 20,
                            self.shared_indicators.price_history@.len() as int,
                        ),
                    ),
                    20,
                );
            }
            self.shared_indicators.moving_average_20 = Some(sum_20.div(Dec::from_int(20)));
        }

        if self.shared_indicators.price_history.len() >= SHARED_HISTORY_CAP {
            let sum_50: Dec = sum_window(&self.shared_indicators.price_history);
            proof {
                lemma_sum_le_sum_abs(self.shared_indicators.price_history@);
                lemma_div_units_by_whole(
                    sum_units(self.shared_indicators.price_history@),
                    self.shared_indicators.price_history@.len() as int,
                );
            }
            let divisor: Dec = Dec::from_int(self.shared_indicators.price_history.len() as i64);
            self.shared_indicators.moving_average_50 = Some(sum_50.div(divisor));
        }

        match (
            self.shared_indicators.moving_average_20,
            self.shared_indicators.moving_average_50,
        ) {
            (Some(ma_20), Some(ma_50)) => {
                self.shared_metrics.market_trend = if ma_20.gt(ma_50) {
                    MarketTrend::Bullish
                } else if ma_20.lt(ma_50) {
                    MarketTrend::Bearish
                } else {
                    MarketTrend::Neutral
                };
            },
            _ => {},
        }
    }

    /// Applies one market event: remembers the price it implies and feeds
    /// the current price to the shared calculations.
    pub fn process(&mut self, event: &MarketEvent)
        requires
            old(self).wf(),
            event.price matches Some(p) ==> p.wf(),
            (if event.price is Some {
                event.price
            } else {
                old(self).market_price
            }) matches Some(p) ==> sum_abs_units(
                old(self).shared_indicators.price_history@.push(p),
            ) <= MAX_UNITS as int,
        ensures
            final(self).wf(),
            final(self).market_price == (if event.price is Some {
                event.price
            } else {
                old(self).market_price
            }),
            final(self).strategy_a == old(self).strategy_a,
            final(self).strategy_b == old(self).strategy_b,
            final(self).market_price is None ==> {
                &&& final(self).shared_indicators == old(self).shared_indicators
                &&& final(self).shared_metrics == old(self).shared_metrics
            },
            final(self).market_price matches Some(p) ==> {
                final(self).shared_indicators.price_history@ == slide_window(
                    old(self).shared_indicators.price_history@,
                    p,
                    SHARED_HISTORY_CAP as nat,
                )
            },
    {
        if let Some(p) = event.price {
            self.market_price = Some(p);
        }
        if let Some(p) = self.market_price {
            self.update_shared_calculations(p);
        }
    }

    /// Records the position a strategy holds after an account trade was
    /// applied by the execution runtime: the trade's strategy tag decides
    /// which slice is updated; any other tag leaves the state alone.
    pub fn record_strategy_position(
        &mut self,
        strategy: StrategyTag,
        position_after: Option<Position>,
    )
        ensures
            strategy == StrategyTag::StrategyA ==> final(self).strategy_a.position
                == position_after && final(self).strategy_b == old(self).strategy_b,
            strategy == StrategyTag::StrategyB ==> final(self).strategy_b.position
                == position_after && final(self).strategy_a == old(self).strategy_a,
            !(strategy == StrategyTag::StrategyA) && !(strategy == StrategyTag::StrategyB)
                ==> final(self).strategy_a == old(self).strategy_a && final(self).strategy_b
                == old(self).strategy_b,
            final(self).market_price == old(self).market_price,
            final(self).shared_indicators == old(self).shared_indicators,
            final(self).shared_metrics == old(self).shared_metrics,
            old(self).wf() ==> final(self).wf(),
    {
        match strategy {
            StrategyTag::StrategyA => {
                self.strategy_a.position = position_after;
            },
            StrategyTag::StrategyB => {
                self.strategy_b.position = position_after;
            },
            _ => {},
        }
    }
}

/// Read-only view of one instrument when closing positions.
#[derive(Clone, Copy, Debug)]
pub struct CloseSnapshot {
    /// Exchange identity.
    pub exchange: u64,
    /// Instrument identity.
    pub instrument: u64,
    /// Live market price, if any.
    pub price: Option<Dec>,
    /// First strategy's open position, if any.
    pub position_a: Option<Position>,
    /// Second strategy's open position, if any.
    pub position_b: Option<Position>,
}

/// The opposite side.
pub open spec fn opposite_side(side: Side) -> Side {
    match side {
        Side::Buy => Side::Sell,
        Side::Sell => Side::Buy,
    }
}

/// The immediate-or-cancel market order that closes one position at the
/// current price.
pub open spec fn close_order_of(
    exchange: u64,
    instrument: u64,
    strategy: StrategyTag,
    position: Position,
    price: Dec,
) -> OrderRequestOpen {
    OrderRequestOpen {
        exchange,
        instrument,
        strategy,
        side: opposite_side(position.side),
        price,
        quantity: position.quantity_abs,
        kind: OrderKind::Market,
        time_in_force: TimeInForce::ImmediateOrCancel,
    }
}

/// The closing orders of one instrument: none without a market price, else
/// one per strategy with an open position, first strategy first.
pub open spec fn closes_of_snapshot(snap: CloseSnapshot) -> Seq<OrderRequestOpen> {
    match snap.price {
        None => Seq::<OrderRequestOpen>::empty(),
        Some(p) => (match snap.position_a {
            Some(pos) => seq![
                close_order_of(snap.exchange, snap.instrument, StrategyTag::StrategyA, pos, p),
            ],
            None => Seq::<OrderRequestOpen>::empty(),
        }) + (match snap.position_b {
            Some(pos) => seq![
                close_order_of(snap.exchange, snap.instrument, StrategyTag::StrategyB, pos, p),
            ],
            None => Seq::<OrderRequestOpen>::empty(),
        }),
    }
}

/// The closing orders of a whole cycle, in instrument order.
pub open spec fn all_closes(snaps: Seq<CloseSnapshot>) -> Seq<OrderRequestOpen>
    decreases snaps.len(),
{
    if snaps.len() == 0 {
        Seq::<OrderRequestOpen>::empty()
    } else {
        all_closes(snaps.drop_last()) + closes_of_snapshot(snaps.last())
    }
}

/// First placeholder strategy: it classifies but does not trade.
#[derive(Clone, Copy, Debug, PartialEq, Eq, Structural)]
pub struct StrategyA;

impl StrategyA {
    /// Emits no cancellations and no orders.
    pub fn generate_algo_orders(&self) -> (r: (Vec<OrderRequestCancel>, Vec<OrderRequestOpen>))
        ensures
            r.0@ == Seq::<OrderRequestCancel>::empty(),
            r.1@ == Seq::<OrderRequestOpen>::empty(),
    {
        (Vec::new(), Vec::new())
    }

    /// Closing positions is left to the owning multi-strategy.
    pub fn close_positions_requests(&self) -> (r: (
        Vec<OrderRequestCancel>,
        Vec<OrderRequestOpen>,
    ))
        ensures
            r.0@ == Seq::<OrderRequestCancel>::empty(),
            r.1@ == Seq::<OrderRequestOpen>::empty(),
    {
        (Vec::new(), Vec::new())
    }
}

/// Second placeholder strategy: it watches shared metrics but does not
/// trade.
#[derive(Clone, Copy, Debug, PartialEq, Eq, Structural)]
pub struct StrategyB;

impl StrategyB {
    /// Emits no cancellations and no orders.
    pub fn generate_algo_orders(&self) -> (r: (Vec<OrderRequestCancel>, Vec<OrderRequestOpen>))
        ensures
            r.0@ == Seq::<OrderRequestCancel>::empty(),
            r.1@ == Seq::<OrderRequestOpen>::empty(),
    {
        (Vec::new(), Vec::new())
    }
}

/// Pair of coordinated strategies evaluated together.
#[derive(Clone, Copy, Debug)]
pub struct MultiStrategy {
    /// First strategy.
    pub strategy_a: StrategyA,
    /// Second strategy.
    pub strategy_b: StrategyB,
}

impl MultiStrategy {
    /// Chains both strategies' orders; as neither trades, nothing is
    /// emitted.
    pub fn generate_algo_orders(&self) -> (r: (Vec<OrderRequestCancel>, Vec<OrderRequestOpen>))
        ensures
            r.0@ == Seq::<OrderRequestCancel>::empty(),
            r.1@ == Seq::<OrderRequestOpen>::empty(),
    {
        let (cancels_a, opens_a): (Vec<OrderRequestCancel>, Vec<OrderRequestOpen>) =
            self.strategy_a.generate_algo_orders();
        let (_cancels_b, _opens_b): (Vec<OrderRequestCancel>, Vec<OrderRequestOpen>) =
            self.strategy_b.generate_algo_orders();
        (cancels_a, opens_a)
    }

    /// One immediate-or-cancel market order per open position per
    /// instrument with a known price, closing it at that price.
    pub fn close_positions_requests(&self, instruments: &Vec<CloseSnapshot>) -> (r: (
        Vec<OrderRequestCancel>,
        Vec<OrderRequestOpen>,
    ))
        ensures
            r.0@ == Seq::<OrderRequestCancel>::empty(),
            r.1@ == all_closes(instruments@),
    {
        let mut open_requests: Vec<OrderRequestOpen> = Vec::new();
        let mut i: usize = 0;
        proof {
            assert(instruments@.take(0) =~= Seq::<CloseSnapshot>::empty());
        }
        while i < instruments.len()
            invariant
                0 <= i <= instruments@.len(),
                open_requests@ == all_closes(instruments@.take(i as int)),
            decreases instruments@.len() - i,
        {
            proof {
                assert(instruments@.take(i as int + 1).drop_last() =~= instruments@.take(
                    i as int,
                ));
                assert(instruments@.take(i as int + 1).last() == instruments@[i as int]);
            }
            let snap: CloseSnapshot = instruments[i];
            if let Some(price) = snap.price {
                if let Some(position) = snap.position_a {
                    open_requests.push(
                        OrderRequestOpen {
                            exchange: snap.exchange,
                            instrument: snap.instrument,
                            strategy: StrategyTag::StrategyA,
                            side: match position.side {
                                Side::Buy => Side::Sell,
                                Side::Sell => Side::Buy,
                            },
                            price,
                            quantity: position.quantity_abs,
                            kind: OrderKind::Market,
                            time_in_force: TimeInForce::ImmediateOrCancel,
                        },
                    );
                }
                if let Some(position) = snap.position_b {
                    open_requests.push(
                        OrderRequestOpen {
                            exchange: snap.exchange,
                            instrument: snap.instrument,
                            strategy: StrategyTag::StrategyB,
                            side: match position.side {
                                Side::Buy => Side::Sell,
                                Side::Sell => Side::Buy,
                            },
                            price,
                            quantity: position.quantity_abs,
                            kind: OrderKind::Market,
                            time_in_force: TimeInForce::ImmediateOrCancel,
                        },
                    );
                }
            }
            proof {
                assert(open_requests@ =~= all_closes(instruments@.take(i as int)) + closes_of_snapshot(
                    instruments@[i as int],
                ));
            }
            i = i + 1;
        }
        proof {
            assert(instruments@.take(instruments@.len() as int) =~= instruments@);
        }
        (Vec::new(), open_requests)
    }
}

/// Sums the most recent `n` entries of the history.
fn sum_recent(prices: &Vec<Dec>, n: usize) -> (r: Dec)
    requires
        n <= prices@.len(),
        forall|i: int| 0 <= i < prices@.len() ==> (#[trigger] prices@[i]).wf(),
        sum_abs_units(prices@) <= MAX_UNITS as int,
    ensures
        r.units == sum_units(prices@.subrange(prices@.len() - n, prices@.len() as int)),
        r.wf(),
{
    let start: usize = prices.len() - n;
    let mut sum: i128 = 0;
    let mut j: usize = start;
    proof {
        assert(prices@.subrange(start as int, start as int) =~= Seq::<Dec>::empty());
        lemma_sum_le_sum_abs(prices@);
    }
    while j < prices.len()
        invariant
            start as int == prices@.len() - n,
            start <= j <= prices@.len(),
            forall|i: int| 0 <= i < prices@.len() ==> (#[trigger] prices@[i]).wf(),
            sum_abs_units(prices@) <= MAX_UNITS as int,
            sum == sum_units(prices@.subrange(start as int, j as int)),
            abs_int(sum as int) <= sum_abs_units(prices@),
        decreases prices@.len() - j,
    {
        proof {
            assert(prices@.subrange(start as int, j as int + 1).drop_last() =~= prices@.subrange(
                start as int,
                j as int,
            ));
            assert(prices@.subrange(start as int, j as int + 1).last() == prices@[j as int]);
            lemma_sum_abs_subrange(prices@, start as int, j as int + 1);
            lemma_sum_le_sum_abs(prices@.subrange(start as int, j as int + 1));
        }
        sum = sum + prices[j].units;
        j = j + 1;
    }
    Dec { units: sum }
}

/// A contiguous slice's absolute sum never exceeds the whole sequence's.
proof fn lemma_sum_abs_subrange(s: Seq<Dec>, a: int, b: int)
    requires
        0 <= a <= b <= s.len(),
    ensures
        sum_abs_units(s.subrange(a, b)) <= sum_abs_units(s),
    decreases a,
{
    if a == 0 {
        assert(s.subrange(0, b) =~= s.take(b));
        lemma_sum_abs_take_le(s, b);
    } else {
        assert(s.subrange(a, b) =~= s.drop_first().subrange(a - 1, b - 1));
        lemma_sum_abs_drop_first(s);
        lemma_sum_abs_subrange(s.drop_first(), a - 1, b - 1);
    }
}

} // verus!
