//! VWAP/RSI crossover strategy.
//!
//! Each decision cycle classifies the relative-strength index into
//! overbought/oversold/neutral and the price against the volume-weighted
//! average price into above/at/below, then signals on transitions: entering
//! an extreme index state, or the price crossing the average. Index signals
//! take precedence when both fire.

use vstd::prelude::*;
use std::collections::HashMap;
use crate::dec::{Dec, SCALE, MAX_UNITS, abs_int, in_range, div_units};
use crate::order::{OrderKind, OrderRequestCancel, OrderRequestOpen, Side, StrategyTag, TimeInForce};
use crate::position::PositionSizer;

verus! {

broadcast use vstd::std_specs::hash::group_hash_axioms;

/// Index classification.
#[derive(Clone, Copy, Debug, PartialEq, Eq, Structural)]
pub enum RsiState {
    Neutral,
    /// Index above 80.
    Overbought,
    /// Index below 20.
    Oversold,
}

/// Price classification against the volume-weighted average price.
#[derive(Clone, Copy, Debug, PartialEq, Eq, Structural)]
pub enum VwapState {
    /// Price above the average by more than the threshold.
    AboveVwap,
    /// Price below the average by more than the threshold.
    BelowVwap,
    /// Price within 0.1% of the average.
    AtVwap,
}

/// Kind of signal a cycle emits.
#[derive(Clone, Copy, Debug, PartialEq, Eq, Structural)]
pub enum SignalType {
    Buy,
    Sell,
    NoSignal,
}

/// Which classification produced a signal.
#[derive(Clone, Copy, Debug, PartialEq, Eq, Structural)]
pub enum SignalSource {
    Rsi,
    Vwap,
    /// Both classifications agreed on the same side.
    Combined,
}

/// One trading signal emitted for an instrument in one cycle.
#[derive(Clone, Copy, Debug)]
pub struct TradingSignal {
    /// Buy or sell (never `NoSignal` in an emitted signal).
    pub signal_type: SignalType,
    /// Exchange identity of the instrument.
    pub exchange: u64,
    /// Instrument identity.
    pub instrument: u64,
    /// Market price at emission.
    pub price: Dec,
    /// Volume-weighted average price at emission.
    pub vwap: Dec,
    /// Index value at emission.
    pub rsi: Dec,
    /// Index value of the previous cycle (50 when none was recorded).
    pub previous_rsi: Dec,
    /// Which classification fired.
    pub signal_source: SignalSource,
}

/// Read-only view of one instrument for a decision cycle.
#[derive(Clone, Copy, Debug)]
pub struct VwapSnapshot {
    /// Exchange identity.
    pub exchange: u64,
    /// Instrument identity (also the key of the state maps).
    pub instrument: u64,
    /// Live market price, if any.
    pub price: Option<Dec>,
    /// Current volume-weighted average price, if defined.
    pub vwap: Option<Dec>,
    /// Current index value, if defined.
    pub rsi: Option<Dec>,
}

/// Index state: overbought above 80, oversold below 20.
pub open spec fn rsi_state_of(rsi: Dec) -> RsiState {
    if rsi.units > 80 * SCALE as int {
        RsiState::Overbought
    } else if rsi.units < 20 * SCALE as int {
        RsiState::Oversold
    } else {
        RsiState::Neutral
    }
}

/// Price state against the average: at the average within a 0.1% relative
/// deviation, else above or below.
pub open spec fn vwap_state_of(price: Dec, vwap: Dec) -> VwapState {
    if div_units(abs_int(price.units - vwap.units), vwap.units as int) <= 1_000_000int {
        VwapState::AtVwap
    } else if price.units > vwap.units {
        VwapState::AboveVwap
    } else {
        VwapState::BelowVwap
    }
}

/// An index signal fires only on entering an extreme state from neutral.
pub open spec fn rsi_fires(prev: RsiState, cur: RsiState) -> bool {
    (prev == RsiState::Neutral && cur == RsiState::Overbought) || (prev == RsiState::Neutral
        && cur == RsiState::Oversold)
}

/// The signal of an entered index state: overbought sells, oversold buys.
pub open spec fn rsi_signal_of(cur: RsiState) -> SignalType {
    match cur {
        RsiState::Overbought => SignalType::Sell,
        RsiState::Oversold => SignalType::Buy,
        RsiState::Neutral => SignalType::NoSignal,
    }
}

/// An average-price signal fires when the price crosses the average.
pub open spec fn vwap_fires(prev: VwapState, cur: VwapState) -> bool {
    vwap_signal_of(prev, cur) != SignalType::NoSignal
}

/// The signal of a crossing: up through the average buys, down sells.
pub open spec fn vwap_signal_of(prev: VwapState, cur: VwapState) -> SignalType {
    match (prev, cur) {
        (VwapState::BelowVwap, VwapState::AboveVwap) => SignalType::Buy,
        (VwapState::AtVwap, VwapState::AboveVwap) => SignalType::Buy,
        (VwapState::AboveVwap, VwapState::BelowVwap) => SignalType::Sell,
        (VwapState::AtVwap, VwapState::BelowVwap) => SignalType::Sell,
        _ => SignalType::NoSignal,
    }
}

/// The combined decision of a cycle: the index signal when it fires (joined
/// with an agreeing crossing as `Combined`), else the crossing signal.
pub open spec fn combined_signal(
    prev_rsi: RsiState,
    cur_rsi: RsiState,
    prev_vwap: VwapState,
    cur_vwap: VwapState,
) -> Option<(SignalType, SignalSource)> {
    let r = if rsi_fires(prev_rsi, cur_rsi) && rsi_signal_of(cur_rsi) != SignalType::NoSignal {
        Some(rsi_signal_of(cur_rsi))
    } else {
        None
    };
    let v = if vwap_fires(prev_vwap, cur_vwap) {
        Some(vwap_signal_of(prev_vwap, cur_vwap))
    } else {
        None
    };
    match (r, v) {
        (Some(rt), Some(vt)) => if rt == vt {
            Some((rt, SignalSource::Combined))
        } else {
            Some((rt, SignalSource::Rsi))
        },
        (Some(rt), None) => Some((rt, SignalSource::Rsi)),
        (None, Some(vt)) => Some((vt, SignalSource::Vwap)),
        (None, None) => None,
    }
}

/// VWAP/RSI crossover strategy: per-instrument previous classifications and
/// position sizing.
pub struct Vwap {
    /// Previous index state per instrument.
    pub last_rsi_state: HashMap<u64, RsiState>,
    /// Previous index value per instrument.
    pub last_rsi_value: HashMap<u64, Dec>,
    /// Previous price-against-average state per instrument.
    pub last_vwap_state: HashMap<u64, VwapState>,
    /// Converts signal prices into order quantities.
    pub position_sizer: PositionSizer,
}

impl Vwap {
    /// Structural invariant.
    pub open spec fn wf(self) -> bool {
        self.position_sizer.wf()
    }

    /// Creates the strategy with the default 0.5% risk.
    pub fn new(wallet_size: Dec) -> (r: Vwap)
        requires
            wallet_size.wf(),
        ensures
            r.last_rsi_state@ == Map::<u64, RsiState>::empty(),
            r.last_rsi_value@ == Map::<u64, Dec>::empty(),
            r.last_vwap_state@ == Map::<u64, VwapState>::empty(),
            r.position_sizer.wallet_size == wallet_size,
            r.position_sizer.risk_percentage.units == 5_000_000int,
            r.wf(),
    {
        Vwap {
            last_rsi_state: HashMap::new(),
            last_rsi_value: HashMap::new(),
            last_vwap_state: HashMap::new(),
            position_sizer: PositionSizer::new(wallet_size),
        }
    }

    /// Creates the strategy with a custom risk percentage.
    pub fn with_risk(wallet_size: Dec, risk_percentage: Dec) -> (r: Vwap)
        requires
            wallet_size.wf(),
            risk_percentage.wf(),
            abs_int(wallet_size.units * risk_percentage.units) <= MAX_UNITS as int * SCALE as int,
        ensures
            r.last_rsi_state@ == Map::<u64, RsiState>::empty(),
            r.last_rsi_value@ == Map::<u64, Dec>::empty(),
            r.last_vwap_state@ == Map::<u64, VwapState>::empty(),
            r.position_sizer.wallet_size == wallet_size,
            r.position_sizer.risk_percentage == risk_percentage,
            r.wf(),
    {
        Vwap {
            last_rsi_state: HashMap::new(),
            last_rsi_value: HashMap::new(),
            last_vwap_state: HashMap::new(),
            position_sizer: PositionSizer::with_risk(wallet_size, risk_percentage),
        }
    }

    /// Classifies an index value.
    pub fn determine_rsi_state(rsi: Dec) -> (r: RsiState)
        ensures
            r == rsi_state_of(rsi),
    {
        if rsi.gt(Dec::from_int(80)) {
            RsiState::Overbought
        } else if rsi.lt(Dec::from_int(20)) {
            RsiState::Oversold
        } else {
            RsiState::Neutral
        }
    }

    /// Classifies the price against the average.
    pub fn determine_vwap_state(price: Dec, vwap: Dec) -> (r: VwapState)
        requires
            price.wf(),
            vwap.wf(),
            vwap.units != 0,
            in_range(price.units - vwap.units),
            in_range(div_units(abs_int(price.units - vwap.units), vwap.units as int)),
        ensures
            r == vwap_state_of(price, vwap),
    {
        let deviation: Dec = price.sub(vwap).abs().div(vwap);
        if deviation.le(Dec::from_units(1_000_000)) {
            VwapState::AtVwap
        } else if price.gt(vwap) {
            VwapState::AboveVwap
        } else {
            VwapState::BelowVwap
        }
    }

    /// Whether entering the current index state fires a signal.
    pub fn should_generate_rsi_signal(previous_state: &RsiState, current_state: &RsiState) -> (r:
        bool)
        ensures
            r == rsi_fires(*previous_state, *current_state),
    {
        matches!(
            (previous_state, current_state),
            (RsiState::Neutral, RsiState::Overbought) | (RsiState::Neutral, RsiState::Oversold)
        )
    }

    /// Whether the average-price transition fires a signal.
    pub fn should_generate_vwap_signal(
        previous_state: &VwapState,
        current_state: &VwapState,
    ) -> (r: bool)
        ensures
            r == vwap_fires(*previous_state, *current_state),
    {
        matches!(
            (previous_state, current_state),
            (VwapState::BelowVwap, VwapState::AboveVwap)
            | (VwapState::AtVwap, VwapState::AboveVwap)
            | (VwapState::AboveVwap, VwapState::BelowVwap)
            | (VwapState::AtVwap, VwapState::BelowVwap)
        )
    }

    /// The signal of an average-price transition.
    pub fn get_vwap_signal_type(previous_state: &VwapState, current_state: &VwapState) -> (r:
        SignalType)
        ensures
            r == vwap_signal_of(*previous_state, *current_state),
    {
        match (previous_state, current_state) {
            (VwapState::BelowVwap, VwapState::AboveVwap) => SignalType::Buy,
            (VwapState::AtVwap, VwapState::AboveVwap) => SignalType::Buy,
            (VwapState::AboveVwap, VwapState::BelowVwap) => SignalType::Sell,
            (VwapState::AtVwap, VwapState::BelowVwap) => SignalType::Sell,
            _ => SignalType::NoSignal,
        }
    }

    /// The signal one cycle emits for previous states `(pr, prv, pv)` and
    /// current values, if any.
    pub open spec fn signal_model(
        self,
        exchange: u64,
        instrument: u64,
        price: Dec,
        vwap: Dec,
        rsi: Dec,
        prev_rsi_state: RsiState,
        prev_rsi_value: Dec,
        prev_vwap_state: VwapState,
    ) -> Option<TradingSignal> {
        match combined_signal(
            prev_rsi_state,
            rsi_state_of(rsi),
            prev_vwap_state,
            vwap_state_of(price, vwap),
        ) {
            Some((t, src)) => Some(
                TradingSignal {
                    signal_type: t,
                    exchange,
                    instrument,
                    price,
                    vwap,
                    rsi,
                    previous_rsi: prev_rsi_value,
                    signal_source: src,
                },
            ),
            None => None,
        }
    }

    /// Runs one decision cycle for one instrument: classifies the index and
    /// the price against the average, records the classifications, and
    /// returns the transition signal, if any. Without a price, average or
    /// index value it does nothing.
    pub fn process_instrument_signal(
        &mut self,
        exchange: u64,
        instrument: u64,
        price: Option<Dec>,
        vwap: Option<Dec>,
        rsi: Option<Dec>,
    ) -> (r: Option<TradingSignal>)
        requires
            old(self).wf(),
            price matches Some(p) ==> p.wf(),
            vwap matches Some(v) ==> v.wf() && v.units != 0,
            rsi matches Some(x) ==> x.wf(),
            price matches Some(p) ==> vwap matches Some(v) ==> {
                &&& in_range(p.units - v.units)
                &&& in_range(div_units(abs_int(p.units - v.units), v.units as int))
            },
        ensures
            final(self).position_sizer == old(self).position_sizer,
            final(self).wf(),
            price is None || vwap is None || rsi is None ==> {
                &&& final(self).last_rsi_state@ == old(self).last_rsi_state@
                &&& final(self).last_rsi_value@ == old(self).last_rsi_value@
                &&& final(self).last_vwap_state@ == old(self).last_vwap_state@
                &&& r is None
            },
            price matches Some(p) ==> vwap matches Some(v) ==> rsi matches Some(x) ==> ({
                let prev_rs = if old(self).last_rsi_state@.contains_key(instrument) {
                    old(self).last_rsi_state@[instrument]
                } else {
                    RsiState::Neutral
                };
                let prev_rv = if old(self).last_rsi_value@.contains_key(instrument) {
                    old(self).last_rsi_value@[instrument]
                } else {
                    crate::dec::dec_of(50 * SCALE as int)
                };
                let prev_vs = if old(self).last_vwap_state@.contains_key(instrument) {
                    old(self).last_vwap_state@[instrument]
                } else {
                    VwapState::AtVwap
                };
                &&& final(self).last_rsi_state@ == old(self).last_rsi_state@.insert(
                    instrument,
                    rsi_state_of(x),
                )
                &&& final(self).last_rsi_value@ == old(self).last_rsi_value@.insert(instrument, x)
                &&& final(self).last_vwap_state@ == old(self).last_vwap_state@.insert(
                    instrument,
                    vwap_state_of(p, v),
                )
                &&& r == old(self).signal_model(
                    exchange,
                    instrument,
                    p,
                    v,
                    x,
                    prev_rs,
                    prev_rv,
                    prev_vs,
                )
            }),
            r matches Some(sig) ==> sig.price.wf() && sig.signal_type != SignalType::NoSignal,
    {
        let (p, v, x): (Dec, Dec, Dec) = match (price, vwap, rsi) {
            (Some(p), Some(v), Some(x)) => (p, v, x),
            _ => {
                return None;
            },
        };

        let current_rsi_state: RsiState = Vwap::determine_rsi_state(x);
        let current_vwap_state: VwapState = Vwap::determine_vwap_state(p, v);

        let previous_rsi_state: RsiState = match self.last_rsi_state.get(&instrument) {
            Some(s) => *s,
            None => RsiState::Neutral,
        };
        let previous_rsi: Dec = match self.last_rsi_value.get(&instrument) {
            Some(d) => *d,
            None => Dec::from_int(50),
        };
        let previous_vwap_state: VwapState = match self.last_vwap_state.get(&instrument) {
            Some(s) => *s,
            None => VwapState::AtVwap,
        };

        self.last_rsi_state.insert(instrument, current_rsi_state);
        self.last_rsi_value.insert(instrument, x);
        self.last_vwap_state.insert(instrument, current_vwap_state);

        let rsi_signal: Option<SignalType> = if Vwap::should_generate_rsi_signal(
            &previous_rsi_state,
            &current_rsi_state,
        ) {
            match current_rsi_state {
                RsiState::Overbought => Some(SignalType::Sell),
                RsiState::Oversold => Some(SignalType::Buy),
                RsiState::Neutral => None,
            }
        } else {
            None
        };

        let vwap_signal: Option<SignalType> = if Vwap::should_generate_vwap_signal(
            &previous_vwap_state,
            &current_vwap_state,
        ) {
            let signal_type: SignalType = Vwap::get_vwap_signal_type(
                &previous_vwap_state,
                &current_vwap_state,
            );
            match signal_type {
                SignalType::NoSignal => None,
                _ => Some(signal_type),
            }
        } else {
            None
        };

        let outcome: Option<(SignalType, SignalSource)> = match (rsi_signal, vwap_signal) {
            (Some(rt), Some(vt)) => {
                if rt == vt {
                    Some((rt, SignalSource::Combined))
                } else {
                    Some((rt, SignalSource::Rsi))
                }
            },
            (Some(rt), None) => Some((rt, SignalSource::Rsi)),
            (None, Some(vt)) => Some((vt, SignalSource::Vwap)),
            (None, None) => None,
        };

        match outcome {
            Some((signal_type, signal_source)) => Some(
                TradingSignal {
                    signal_type,
                    exchange,
                    instrument,
                    price: p,
                    vwap: v,
                    rsi: x,
                    previous_rsi,
                    signal_source,
                },
            ),
            None => None,
        }
    }

    /// The open-order request built for one signal on one side.
    pub open spec fn order_of_signal(self, signal: TradingSignal, side: Side) -> OrderRequestOpen {
        OrderRequestOpen {
            exchange: signal.exchange,
            instrument: signal.instrument,
            strategy: StrategyTag::Vwap,
            side,
            price: signal.price,
            quantity: crate::dec::dec_of(
                self.position_sizer.quantity_units(signal.price.units as int),
            ),
            kind: OrderKind::Limit,
            time_in_force: TimeInForce::GoodUntilEndOfDay,
        }
    }

    /// Builds the limit buy order for a buy signal.
    pub fn create_buy_order(&self, signal: &TradingSignal) -> (r: OrderRequestOpen)
        requires
            self.position_sizer.wf(),
            signal.price.wf(),
            self.position_sizer.quantity_in_range(signal.price.units as int),
        ensures
            r == self.order_of_signal(*signal, Side::Buy),
    {
        let quantity: Dec = self.position_sizer.calculate_quantity(signal.price);
        OrderRequestOpen {
            exchange: signal.exchange,
            instrument: signal.instrument,
            strategy: StrategyTag::Vwap,
            side: Side::Buy,
            price: signal.price,
            quantity,
            kind: OrderKind::Limit,
            time_in_force: TimeInForce::GoodUntilEndOfDay,
        }
    }

    /// Builds the limit sell order for a sell signal.
    pub fn create_sell_order(&self, signal: &TradingSignal) -> (r: OrderRequestOpen)
        requires
            self.position_sizer.wf(),
            signal.price.wf(),
            self.position_sizer.quantity_in_range(signal.price.units as int),
        ensures
            r == self.order_of_signal(*signal, Side::Sell),
    {
        let quantity: Dec = self.position_sizer.calculate_quantity(signal.price);
        OrderRequestOpen {
            exchange: signal.exchange,
            instrument: signal.instrument,
            strategy: StrategyTag::Vwap,
            side: Side::Sell,
            price: signal.price,
            quantity,
            kind: OrderKind::Limit,
            time_in_force: TimeInForce::GoodUntilEndOfDay,
        }
    }

    /// Closing positions is left to the execution runtime.
    pub fn close_positions_requests(&self) -> (r: (
        Vec<OrderRequestCancel>,
        Vec<OrderRequestOpen>,
    ))
        ensures
            r.0@ == Seq::<OrderRequestCancel>::empty(),
            r.1@ == Seq::<OrderRequestOpen>::empty(),
    {
        (Vec::new(), Vec::new())
    }

    /// Model view of the three per-instrument state maps.
    pub open spec fn model(self) -> VwapModel {
        VwapModel {
            rsi_states: self.last_rsi_state@,
            rsi_values: self.last_rsi_value@,
            vwap_states: self.last_vwap_state@,
        }
    }

    /// Bounds a snapshot must meet for its cycle (machine limits of the
    /// decimal range, and a non-zero average to divide by).
    pub open spec fn snap_ok(snap: VwapSnapshot) -> bool {
        &&& (snap.price matches Some(p) ==> p.wf())
        &&& (snap.vwap matches Some(v) ==> v.wf() && v.units != 0)
        &&& (snap.rsi matches Some(x) ==> x.wf())
        &&& (snap.price matches Some(p) ==> snap.vwap matches Some(v) ==> in_range(
            p.units - v.units,
        ) && in_range(div_units(abs_int(p.units - v.units), v.units as int)))
    }

    /// One instrument of a decision cycle at the model level.
    pub open spec fn run_step_model(self, m: VwapModel, snap: VwapSnapshot) -> (
        VwapModel,
        Option<TradingSignal>,
    ) {
        if snap.price is Some && snap.vwap is Some && snap.rsi is Some {
            let p = snap.price->0;
            let v = snap.vwap->0;
            let x = snap.rsi->0;
            let prev_rs = if m.rsi_states.contains_key(snap.instrument) {
                m.rsi_states[snap.instrument]
            } else {
                RsiState::Neutral
            };
            let prev_rv = if m.rsi_values.contains_key(snap.instrument) {
                m.rsi_values[snap.instrument]
            } else {
                crate::dec::dec_of(50 * SCALE as int)
            };
            let prev_vs = if m.vwap_states.contains_key(snap.instrument) {
                m.vwap_states[snap.instrument]
            } else {
                VwapState::AtVwap
            };
            (
                VwapModel {
                    rsi_states: m.rsi_states.insert(snap.instrument, rsi_state_of(x)),
                    rsi_values: m.rsi_values.insert(snap.instrument, x),
                    vwap_states: m.vwap_states.insert(snap.instrument, vwap_state_of(p, v)),
                },
                self.signal_model(
                    snap.exchange,
                    snap.instrument,
                    p,
                    v,
                    x,
                    prev_rs,
                    prev_rv,
                    prev_vs,
                ),
            )
        } else {
            (m, None)
        }
    }

    /// The orders one cycle's signal contributes: a buy order, a sell
    /// order, or none. A signal whose quantity would leave the decimal
    /// range is skipped.
    pub open spec fn orders_of_outcome(self, sig: Option<TradingSignal>) -> (
        Seq<OrderRequestOpen>,
        Seq<OrderRequestOpen>,
    ) {
        match sig {
            Some(s) => if s.signal_type == SignalType::Buy && self.position_sizer.quantity_in_range(
                s.price.units as int,
            ) {
                (seq![self.order_of_signal(s, Side::Buy)], Seq::<OrderRequestOpen>::empty())
            } else if s.signal_type == SignalType::Sell
                && self.position_sizer.quantity_in_range(s.price.units as int) {
                (Seq::<OrderRequestOpen>::empty(), seq![self.order_of_signal(s, Side::Sell)])
            } else {
                (Seq::<OrderRequestOpen>::empty(), Seq::<OrderRequestOpen>::empty())
            },
            None => (Seq::<OrderRequestOpen>::empty(), Seq::<OrderRequestOpen>::empty()),
        }
    }

    /// A whole decision cycle over a sequence of instruments.
    pub open spec fn run_model(self, m: VwapModel, snaps: Seq<VwapSnapshot>) -> (
        VwapModel,
        Seq<OrderRequestOpen>,
        Seq<OrderRequestOpen>,
    )
        decreases snaps.len(),
    {
        if snaps.len() == 0 {
            (m, Seq::<OrderRequestOpen>::empty(), Seq::<OrderRequestOpen>::empty())
        } else {
            let (m1, sig) = self.run_step_model(m, snaps[0]);
            let (b0, s0) = self.orders_of_outcome(sig);
            let (m2, buys, sells) = self.run_model(m1, snaps.drop_first());
            (m2, b0 + buys, s0 + sells)
        }
    }

    /// Runs one decision cycle over every instrument and returns no
    /// cancellations and the resulting orders, all buys first, then all
    /// sells, in instrument order.
    pub fn generate_algo_orders(&mut self, instruments: &Vec<VwapSnapshot>) -> (r: (
        Vec<OrderRequestCancel>,
        Vec<OrderRequestOpen>,
    ))
        requires
            old(self).wf(),
            forall|i: int|
                0 <= i < instruments@.len() ==> Vwap::snap_ok(#[trigger] instruments@[i]),
        ensures
            final(self).position_sizer == old(self).position_sizer,
            final(self).wf(),
            r.0@ == Seq::<OrderRequestCancel>::empty(),
            ({
                let (m, buys, sells) = old(self).run_model(old(self).model(), instruments@);
                &&& final(self).model() == m
                &&& r.1@ == buys + sells
            }),
    {
        let ghost cfg = *old(self);
        let ghost total = cfg.run_model(cfg.model(), instruments@);
        let mut buy_orders: Vec<OrderRequestOpen> = Vec::new();
        let mut sell_orders: Vec<OrderRequestOpen> = Vec::new();
        let mut i: usize = 0;
        proof {
            assert(instruments@.skip(0) =~= instruments@);
        }
        while i < instruments.len()
            invariant
                0 <= i <= instruments@.len(),
                self.position_sizer == cfg.position_sizer,
                self.wf(),
                forall|k: int|
                    0 <= k < instruments@.len() ==> Vwap::snap_ok(#[trigger] instruments@[k]),
                total == ({
                    let (m, b, s) = cfg.run_model(self.model(), instruments@.skip(i as int));
                    (m, buy_orders@ + b, sell_orders@ + s)
                }),
            decreases instruments@.len() - i,
        {
            let ghost rest = instruments@.skip(i as int);
            let ghost m0 = self.model();
            proof {
                assert(rest[0] == instruments@[i as int]);
                assert(rest.drop_first() =~= instruments@.skip(i as int + 1));
            }
            let snap: VwapSnapshot = instruments[i];
            let outcome: Option<TradingSignal> = self.process_instrument_signal(
                snap.exchange,
                snap.instrument,
                snap.price,
                snap.vwap,
                snap.rsi,
            );
            proof {
                assert(self.model() =~= cfg.run_step_model(m0, snap).0);
                assert(outcome == cfg.run_step_model(m0, snap).1);
            }
            let ghost buys_before = buy_orders@;
            let ghost sells_before = sell_orders@;
            if let Some(signal) = outcome {
                match signal.signal_type {
                    SignalType::Buy => {
                        if self.position_sizer.quantity_ok(signal.price) {
                            let order: OrderRequestOpen = self.create_buy_order(&signal);
                            buy_orders.push(order);
                        }
                    },
                    SignalType::Sell => {
                        if self.position_sizer.quantity_ok(signal.price) {
                            let order: OrderRequestOpen = self.create_sell_order(&signal);
                            sell_orders.push(order);
                        }
                    },
                    SignalType::NoSignal => {},
                }
            }
            proof {
                let parts = cfg.orders_of_outcome(cfg.run_step_model(m0, snap).1);
                assert(buy_orders@ =~= buys_before + parts.0);
                assert(sell_orders@ =~= sells_before + parts.1);
                let rm1 = cfg.run_model(self.model(), instruments@.skip(i as int + 1));
                assert(cfg.run_model(m0, rest) == (rm1.0, parts.0 + rm1.1, parts.1 + rm1.2));
                assert(buy_orders@ + rm1.1 =~= buys_before + (parts.0 + rm1.1));
                assert(sell_orders@ + rm1.2 =~= sells_before + (parts.1 + rm1.2));
            }
            i = i + 1;
        }
        proof {
            assert(instruments@.skip(instruments@.len() as int) =~= Seq::<VwapSnapshot>::empty());
            assert(buy_orders@ + Seq::<OrderRequestOpen>::empty() =~= buy_orders@);
            assert(sell_orders@ + Seq::<OrderRequestOpen>::empty() =~= sell_orders@);
        }
        let mut all_orders: Vec<OrderRequestOpen> = buy_orders;
        let mut k: usize = 0;
        let ghost buys_done = all_orders@;
        while k < sell_orders.len()
            invariant
                0 <= k <= sell_orders@.len(),
                all_orders@ == buys_done + sell_orders@.take(k as int),
            decreases sell_orders@.len() - k,
        {
            proof {
                assert(sell_orders@.take(k as int + 1) =~= sell_orders@.take(k as int).push(
                    sell_orders@[k as int],
                ));
            }
            all_orders.push(sell_orders[k]);
            k = k + 1;
        }
        proof {
            assert(sell_orders@.take(sell_orders@.len() as int) =~= sell_orders@);
        }
        (Vec::new(), all_orders)
    }
}

/// Ghost model of the strategy's three per-instrument state maps.
#[verifier::ext_equal]
pub ghost struct VwapModel {
    /// Previous index state per instrument.
    pub rsi_states: Map<u64, RsiState>,
    /// Previous index value per instrument.
    pub rsi_values: Map<u64, Dec>,
    /// Previous price-against-average state per instrument.
    pub vwap_states: Map<u64, VwapState>,
}

} // verus!
