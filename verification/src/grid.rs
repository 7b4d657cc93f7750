//! Grid-trading strategy state machine with adaptive level placement.
//!
//! Once per decision cycle and per instrument, the strategy classifies the
//! current price against volatility bands around a trend moving average,
//! detects crossings of discrete buy/sell price levels, and emits trading
//! signals: one per crossed level, or a fallback signal on a zone
//! transition. Grid levels are generated once per instrument (when either
//! level set is empty) and a crossed level never re-triggers.

use vstd::prelude::*;
use std::collections::HashMap;
use crate::dec::{Dec, SCALE, MAX_UNITS, abs_int, in_range, mul_units, div_units};
use crate::levels::sorted_distinct;
use crate::order::{OrderKind, OrderRequestCancel, OrderRequestOpen, Side, StrategyTag, TimeInForce};
use crate::position::PositionSizer;

verus! {

broadcast use vstd::std_specs::hash::group_hash_axioms;

/// Position of the price relative to the volatility bands.
#[derive(Clone, Copy, Debug, PartialEq, Eq, Structural)]
pub enum GridZone {
    /// Price above the high band (overbought).
    AboveHighBand,
    /// Price between the bands.
    BetweenBands,
    /// Price below the low band (oversold).
    BelowLowBand,
}

/// Trend of the price relative to the trend moving average.
#[derive(Clone, Copy, Debug, PartialEq, Eq, Structural)]
pub enum TmaState {
    /// Current and previous price above the average.
    BullishTrend,
    /// Current and previous price below the average.
    BearishTrend,
    /// Price oscillating around the average.
    Sideways,
}

/// Kind of signal a cycle emits.
#[derive(Clone, Copy, Debug, PartialEq, Eq, Structural)]
pub enum SignalType {
    Buy,
    Sell,
    NoSignal,
}

/// Whether a grid level triggers buys or sells.
#[derive(Clone, Copy, Debug, PartialEq, Eq, Structural)]
pub enum GridLevelType {
    Buy,
    Sell,
}

/// One trading signal emitted for an instrument in one cycle.
#[derive(Clone, Copy, Debug)]
pub struct GridSignal {
    /// Buy or sell (never `NoSignal` in an emitted signal).
    pub signal_type: SignalType,
    /// Exchange identity of the instrument.
    pub exchange: u64,
    /// Instrument identity.
    pub instrument: u64,
    /// Price to order at: the crossed level, or the market price for a
    /// fallback signal.
    pub price: Dec,
    /// Trend moving average at emission.
    pub tma: Dec,
    /// High volatility band at emission.
    pub high_band: Dec,
    /// Low volatility band at emission.
    pub low_band: Dec,
    /// Volatility at emission (percent).
    pub volatility: Dec,
    /// The crossed level, if the signal came from a crossing.
    pub grid_level: Option<Dec>,
}

/// Mutable per-instrument grid state.
#[derive(Clone, Debug)]
pub struct InstrumentGridState {
    /// Price seen in the previous cycle.
    pub current_price: Dec,
    /// Bounded history of observed prices, oldest first.
    pub price_history: Vec<Dec>,
    /// Ascending distinct buy levels.
    pub buy_levels: Vec<Dec>,
    /// Ascending distinct sell levels.
    pub sell_levels: Vec<Dec>,
    /// Levels already triggered, never to re-trigger.
    pub filled_levels: Vec<Dec>,
    /// Spacing the levels were generated with.
    pub grid_spacing: Dec,
    /// Zone classified in the previous cycle.
    pub last_grid_zone: GridZone,
    /// Trend classified in the previous cycle.
    pub last_tma_state: TmaState,
}

/// Read-only view of one instrument for a decision cycle.
#[derive(Clone, Copy, Debug)]
pub struct InstrumentSnapshot {
    /// Exchange identity.
    pub exchange: u64,
    /// Instrument identity (also the key of its grid state).
    pub instrument: u64,
    /// Live market price, if any.
    pub price: Option<Dec>,
    /// Current simple-moving-average value, if ready.
    pub sma: Option<Dec>,
}

/// Cap on history length and level count configuration.
pub const GRID_CONFIG_LIMIT: usize = 1_000_000_000;

/// Zone of `price` relative to the bands.
pub open spec fn zone_of(price: Dec, high: Dec, low: Dec) -> GridZone {
    if price.units > high.units {
        GridZone::AboveHighBand
    } else if price.units < low.units {
        GridZone::BelowLowBand
    } else {
        GridZone::BetweenBands
    }
}

/// Trend from the current and previous price against the average: bullish
/// when both sit strictly above it, bearish when both sit strictly below
/// it, else sideways — a price exactly on the average is sideways.
pub open spec fn trend_of(price: Dec, tma: Dec, previous: Dec) -> TmaState {
    if price.units > tma.units && previous.units > tma.units {
        TmaState::BullishTrend
    } else if price.units < tma.units && previous.units < tma.units {
        TmaState::BearishTrend
    } else {
        TmaState::Sideways
    }
}

/// Spacing multiplier for a volatility (percent): wider in volatile markets,
/// tighter in calm ones.
pub open spec fn vol_multiplier_units(vol: int) -> int {
    if vol > 5 * SCALE as int {
        1_500_000_000int
    } else if vol < 2 * SCALE as int {
        700_000_000int
    } else {
        SCALE as int
    }
}

/// Volatility (percent) of the band spread around `tma`; zero when `tma` is
/// zero, avoiding the division.
pub open spec fn volatility_units(high: Dec, low: Dec, tma: Dec) -> int {
    if tma.units == 0 {
        0
    } else {
        mul_units(div_units(high.units - low.units, tma.units as int), 100 * SCALE as int)
    }
}

/// Whether a zone transition emits a fallback signal.
pub open spec fn fallback_fires(prev: GridZone, cur: GridZone, trend: TmaState) -> bool {
    fallback_signal(prev, cur, trend) != SignalType::NoSignal
}

/// The fallback signal for a zone transition: an oversold bounce buys, an
/// overbought pullback sells, and leaving the bands signals only with the
/// matching trend.
pub open spec fn fallback_signal(prev: GridZone, cur: GridZone, trend: TmaState) -> SignalType {
    match (prev, cur, trend) {
        (GridZone::BelowLowBand, GridZone::BetweenBands, _) => SignalType::Buy,
        (GridZone::BetweenBands, GridZone::BelowLowBand, TmaState::BullishTrend) => SignalType::Buy,
        (GridZone::AboveHighBand, GridZone::BetweenBands, _) => SignalType::Sell,
        (
            GridZone::BetweenBands,
            GridZone::AboveHighBand,
            TmaState::BearishTrend,
        ) => SignalType::Sell,
        _ => SignalType::NoSignal,
    }
}

/// Zone-fallback law: a move from below the low band back between the bands
/// buys regardless of trend, and a move from between the bands above the
/// high band is ignored unless the trend is bearish — in particular it emits
/// nothing in a sideways market.
pub proof fn lemma_zone_fallback()
    ensures
        forall|t: TmaState|
            fallback_signal(GridZone::BelowLowBand, GridZone::BetweenBands, t) == SignalType::Buy,
        fallback_signal(GridZone::BetweenBands, GridZone::AboveHighBand, TmaState::Sideways)
            == SignalType::NoSignal,
        fallback_signal(GridZone::BetweenBands, GridZone::AboveHighBand, TmaState::BullishTrend)
            == SignalType::NoSignal,
{
}

impl InstrumentGridState {
    /// Structural invariant: bounded well-formed history and ordered,
    /// well-formed level sets.
    pub open spec fn wf(self) -> bool {
        &&& self.current_price.wf()
        &&& self.grid_spacing.wf()
        &&& self.price_history@.len() <= GRID_CONFIG_LIMIT as int
        &&& (forall|i: int|
            0 <= i < self.price_history@.len() ==> (#[trigger] self.price_history@[i]).wf())
        &&& crate::dec::sum_abs_units(self.price_history@) <= MAX_UNITS as int
        &&& sorted_distinct(self.buy_levels@)
        &&& sorted_distinct(self.sell_levels@)
        &&& sorted_distinct(self.filled_levels@)
        &&& (forall|i: int| 0 <= i < self.buy_levels@.len() ==> (#[trigger] self.buy_levels@[i]).wf())
        &&& (forall|i: int|
            0 <= i < self.sell_levels@.len() ==> (#[trigger] self.sell_levels@[i]).wf())
        &&& (forall|i: int|
            0 <= i < self.filled_levels@.len() ==> (#[trigger] self.filled_levels@[i]).wf())
    }
}

/// Grid strategy: per-instrument state behind one map, position sizing, and
/// the banding/spacing configuration.
pub struct Grid {
    /// Per-instrument grid state, keyed by instrument identity. The caller
    /// runs at most one classification/mutation per instrument at a time, as
    /// the engine's single evaluation loop does.
    pub instrument_grids: HashMap<u64, InstrumentGridState>,
    /// Converts signal prices into order quantities.
    pub position_sizer: PositionSizer,
    /// Fraction of the average forming the band offset (0.05 is 5%).
    pub band_percentage: Dec,
    /// Period configured for the trend moving average.
    pub tma_period: usize,
    /// Fraction of the price between adjacent grid levels.
    pub grid_spacing_percentage: Dec,
    /// Number of buy and of sell levels generated.
    pub max_grid_levels: usize,
    /// Bound kept on each instrument's price history.
    pub price_history_length: usize,
}

impl Grid {
    /// Structural invariant: well-formed configuration and per-instrument
    /// states.
    pub open spec fn wf(self) -> bool {
        &&& self.position_sizer.wf()
        &&& self.band_percentage.wf()
        &&& self.grid_spacing_percentage.wf()
        &&& self.max_grid_levels <= GRID_CONFIG_LIMIT
        &&& self.price_history_length <= GRID_CONFIG_LIMIT
        &&& (forall|k: u64|
            self.instrument_grids@.contains_key(k) ==> (#[trigger] self.instrument_grids@[k]).wf())
    }

    /// Units of the band offset around average `tma`.
    pub open spec fn band_offset_units(self, tma: Dec) -> int {
        mul_units(tma.units as int, self.band_percentage.units as int)
    }

    /// Units of the level spacing at `price` under volatility `vol`.
    pub open spec fn spacing_units(self, price: int, vol: int) -> int {
        mul_units(
            mul_units(price, self.grid_spacing_percentage.units as int),
            vol_multiplier_units(vol),
        )
    }

    /// Creates a grid strategy with the default parameters: 5% bands, a
    /// 14-sample average, 2% spacing, 10 levels each way, history of 50.
    pub fn new(wallet_size: Dec) -> (r: Grid)
        requires
            wallet_size.wf(),
        ensures
            r.instrument_grids@ == Map::<u64, InstrumentGridState>::empty(),
            r.position_sizer.wallet_size == wallet_size,
            r.position_sizer.risk_percentage.units == 5_000_000int,
            r.band_percentage.units == 50_000_000int,
            r.tma_period == 14,
            r.grid_spacing_percentage.units == 20_000_000int,
            r.max_grid_levels == 10,
            r.price_history_length == 50,
            r.wf(),
    {
        Grid {
            instrument_grids: HashMap::new(),
            position_sizer: PositionSizer::new(wallet_size),
            band_percentage: Dec::from_units(50_000_000),
            tma_period: 14,
            grid_spacing_percentage: Dec::from_units(20_000_000),
            max_grid_levels: 10,
            price_history_length: 50,
        }
    }

    /// Creates a grid strategy with custom parameters and a history of 50.
    pub fn with_params(
        wallet_size: Dec,
        band_percentage: Dec,
        tma_period: usize,
        risk_percentage: Dec,
        grid_spacing_percentage: Dec,
        max_grid_levels: usize,
    ) -> (r: Grid)
        requires
            wallet_size.wf(),
            risk_percentage.wf(),
            band_percentage.wf(),
            grid_spacing_percentage.wf(),
            abs_int(wallet_size.units * risk_percentage.units) <= MAX_UNITS as int * SCALE as int,
            max_grid_levels <= GRID_CONFIG_LIMIT,
        ensures
            r.instrument_grids@ == Map::<u64, InstrumentGridState>::empty(),
            r.position_sizer.wallet_size == wallet_size,
            r.position_sizer.risk_percentage == risk_percentage,
            r.band_percentage == band_percentage,
            r.tma_period == tma_period,
            r.grid_spacing_percentage == grid_spacing_percentage,
            r.max_grid_levels == max_grid_levels,
            r.price_history_length == 50,
            r.wf(),
    {
        Grid {
            instrument_grids: HashMap::new(),
            position_sizer: PositionSizer::with_risk(wallet_size, risk_percentage),
            band_percentage,
            tma_period,
            grid_spacing_percentage,
            max_grid_levels,
            price_history_length: 50,
        }
    }

    /// The trend moving average: a direct pass-through of the simple moving
    /// average, the documented simplification of a triangular average.
    pub fn calculate_tma(&self, sma: Dec) -> (r: Dec)
        ensures
            r == sma,
    {
        sma
    }

    /// High and low bands at `band_percentage` around the average.
    pub fn calculate_bands(&self, tma: Dec) -> (r: (Dec, Dec))
        requires
            self.band_percentage.wf(),
            tma.wf(),
            abs_int(tma.units * self.band_percentage.units) <= MAX_UNITS as int * SCALE as int,
            in_range(tma.units + self.band_offset_units(tma)),
            in_range(tma.units - self.band_offset_units(tma)),
        ensures
            r.0.units == tma.units + self.band_offset_units(tma),
            r.1.units == tma.units - self.band_offset_units(tma),
            r.0.wf(),
            r.1.wf(),
    {
        let band_offset: Dec = tma.mul(self.band_percentage);
        let high_band: Dec = tma.add(band_offset);
        let low_band: Dec = tma.sub(band_offset);
        (high_band, low_band)
    }

    /// Band spread as a percentage of the average; zero when the average is
    /// zero.
    pub fn calculate_volatility(&self, high_band: Dec, low_band: Dec, tma: Dec) -> (r: Dec)
        requires
            high_band.wf(),
            low_band.wf(),
            tma.wf(),
            in_range(high_band.units - low_band.units),
            tma.units != 0 ==> in_range(
                div_units(high_band.units - low_band.units, tma.units as int),
            ),
            tma.units != 0 ==> 100 * abs_int(
                div_units(high_band.units - low_band.units, tma.units as int),
            ) <= MAX_UNITS as int,
        ensures
            r.units == volatility_units(high_band, low_band, tma),
            r.wf(),
    {
        if tma.is_zero() {
            return Dec::zero();
        }
        let spread: Dec = high_band.sub(low_band);
        let ratio: Dec = spread.div(tma);
        proof {
            crate::dec::lemma_mul_units_by_whole(ratio.units as int, 100);
            crate::dec::lemma_rdiv_bound_by_multiple(
                if ratio.units >= 0 {
                    ratio.units * (100 * SCALE as int)
                } else {
                    -(ratio.units * (100 * SCALE as int))
                },
                SCALE as int,
                abs_int(ratio.units as int) * 100,
            );
        }
        ratio.mul(Dec::from_int(100))
    }

    /// Zone of `price` relative to the bands.
    pub fn determine_grid_zone(&self, price: Dec, high_band: Dec, low_band: Dec) -> (r: GridZone)
        ensures
            r == zone_of(price, high_band, low_band),
    {
        if price.gt(high_band) {
            GridZone::AboveHighBand
        } else if price.lt(low_band) {
            GridZone::BelowLowBand
        } else {
            GridZone::BetweenBands
        }
    }

    /// Trend from the current and previous price against the average:
    /// bullish when both sit strictly above it, bearish when both sit
    /// strictly below it, else sideways.
    pub fn determine_tma_state(&self, price: Dec, tma: Dec, previous_price: Dec) -> (r: TmaState)
        ensures
            r == trend_of(price, tma, previous_price),
    {
        if price.gt(tma) && previous_price.gt(tma) {
            TmaState::BullishTrend
        } else if price.lt(tma) && previous_price.lt(tma) {
            TmaState::BearishTrend
        } else {
            TmaState::Sideways
        }
    }

    /// Level spacing: `price * grid_spacing_percentage`, widened by half in
    /// volatile markets (volatility above 5%) and tightened by 30% in calm
    /// ones (below 2%).
    pub fn calculate_grid_spacing(&self, price: Dec, volatility: Dec) -> (r: Dec)
        requires
            self.grid_spacing_percentage.wf(),
            price.wf(),
            volatility.wf(),
            abs_int(price.units * self.grid_spacing_percentage.units) <= MAX_UNITS as int
                * SCALE as int,
            abs_int(
                mul_units(price.units as int, self.grid_spacing_percentage.units as int)
                    * vol_multiplier_units(volatility.units as int),
            ) <= MAX_UNITS as int * SCALE as int,
        ensures
            r.units == self.spacing_units(price.units as int, volatility.units as int),
            r.wf(),
    {
        let base_spacing: Dec = price.mul(self.grid_spacing_percentage);
        let volatility_multiplier: Dec = if volatility.gt(Dec::from_int(5)) {
            Dec::from_units(1_500_000_000)
        } else if volatility.lt(Dec::from_int(2)) {
            Dec::from_units(700_000_000)
        } else {
            Dec::from_int(1)
        };
        base_spacing.mul(volatility_multiplier)
    }

    /// Whether the zone transition fires a fallback signal this cycle.
    pub fn should_generate_grid_signal(
        &self,
        previous_zone: &GridZone,
        current_zone: &GridZone,
        tma_state: &TmaState,
    ) -> (r: bool)
        ensures
            r == fallback_fires(*previous_zone, *current_zone, *tma_state),
    {
        match (previous_zone, current_zone, tma_state) {
            (GridZone::BelowLowBand, GridZone::BetweenBands, _) => true,
            (GridZone::AboveHighBand, GridZone::BetweenBands, _) => true,
            (GridZone::BetweenBands, GridZone::BelowLowBand, TmaState::BullishTrend) => true,
            (GridZone::BetweenBands, GridZone::AboveHighBand, TmaState::BearishTrend) => true,
            _ => false,
        }
    }

    /// The fallback signal for the zone transition.
    pub fn get_grid_signal_type(
        &self,
        previous_zone: &GridZone,
        current_zone: &GridZone,
        tma_state: &TmaState,
    ) -> (r: SignalType)
        ensures
            r == fallback_signal(*previous_zone, *current_zone, *tma_state),
    {
        match (previous_zone, current_zone, tma_state) {
            (GridZone::BelowLowBand, GridZone::BetweenBands, _) => SignalType::Buy,
            (GridZone::BetweenBands, GridZone::BelowLowBand, TmaState::BullishTrend) => (
            SignalType::Buy),
            (GridZone::AboveHighBand, GridZone::BetweenBands, _) => SignalType::Sell,
            (GridZone::BetweenBands, GridZone::AboveHighBand, TmaState::BearishTrend) => (
            SignalType::Sell),
            _ => SignalType::NoSignal,
        }
    }
}

/// Buy levels after the first `n` steps below `price` at `spacing` apart;
/// non-positive prices are discarded.
pub open spec fn gen_buy_levels(price: int, spacing: int, n: nat) -> Seq<Dec>
    decreases n,
{
    if n == 0 {
        Seq::<Dec>::empty()
    } else {
        let prev = gen_buy_levels(price, spacing, (n - 1) as nat);
        let lvl = price - spacing * n;
        if lvl > 0 {
            crate::levels::insert_level_spec(prev, crate::dec::dec_of(lvl))
        } else {
            prev
        }
    }
}

/// Sell levels after the first `n` steps above `price` at `spacing` apart.
pub open spec fn gen_sell_levels(price: int, spacing: int, n: nat) -> Seq<Dec>
    decreases n,
{
    if n == 0 {
        Seq::<Dec>::empty()
    } else {
        crate::levels::insert_level_spec(
            gen_sell_levels(price, spacing, (n - 1) as nat),
            crate::dec::dec_of(price + spacing * n),
        )
    }
}

/// A buy level triggers when the price moves down through it and it has not
/// already been filled.
pub open spec fn buy_cross(level: Dec, filled: Seq<Dec>, prev: Dec, cur: Dec) -> bool {
    !filled.contains(level) && prev.units > level.units && cur.units <= level.units
}

/// A sell level triggers when the price moves up through it and it has not
/// already been filled.
pub open spec fn sell_cross(level: Dec, filled: Seq<Dec>, prev: Dec, cur: Dec) -> bool {
    !filled.contains(level) && prev.units < level.units && cur.units >= level.units
}

/// Crossed buy levels, in level order.
pub open spec fn crossed_buys(levels: Seq<Dec>, filled: Seq<Dec>, prev: Dec, cur: Dec) -> Seq<
    (Dec, GridLevelType),
>
    decreases levels.len(),
{
    if levels.len() == 0 {
        Seq::<(Dec, GridLevelType)>::empty()
    } else {
        crossed_buys(levels.drop_last(), filled, prev, cur) + if buy_cross(
            levels.last(),
            filled,
            prev,
            cur,
        ) {
            seq![(levels.last(), GridLevelType::Buy)]
        } else {
            Seq::<(Dec, GridLevelType)>::empty()
        }
    }
}

/// Crossed sell levels, in level order.
pub open spec fn crossed_sells(levels: Seq<Dec>, filled: Seq<Dec>, prev: Dec, cur: Dec) -> Seq<
    (Dec, GridLevelType),
>
    decreases levels.len(),
{
    if levels.len() == 0 {
        Seq::<(Dec, GridLevelType)>::empty()
    } else {
        crossed_sells(levels.drop_last(), filled, prev, cur) + if sell_cross(
            levels.last(),
            filled,
            prev,
            cur,
        ) {
            seq![(levels.last(), GridLevelType::Sell)]
        } else {
            Seq::<(Dec, GridLevelType)>::empty()
        }
    }
}

/// All level crossings a cycle detects for a state at `cur`: crossed buy
/// levels first, then crossed sell levels, each in level order.
pub open spec fn crossings_of(st: InstrumentGridState, cur: Dec) -> Seq<(Dec, GridLevelType)> {
    crossed_buys(st.buy_levels@, st.filled_levels@, st.current_price, cur) + crossed_sells(
        st.sell_levels@,
        st.filled_levels@,
        st.current_price,
        cur,
    )
}

/// Least unit count in a non-empty sequence.
pub open spec fn seq_min_units(s: Seq<Dec>) -> int
    recommends
        s.len() >= 1,
    decreases s.len(),
{
    if s.len() <= 1 {
        s[0].units as int
    } else if s.last().units < seq_min_units(s.drop_last()) {
        s.last().units as int
    } else {
        seq_min_units(s.drop_last())
    }
}

/// Greatest unit count in a non-empty sequence.
pub open spec fn seq_max_units(s: Seq<Dec>) -> int
    recommends
        s.len() >= 1,
    decreases s.len(),
{
    if s.len() <= 1 {
        s[0].units as int
    } else if s.last().units > seq_max_units(s.drop_last()) {
        s.last().units as int
    } else {
        seq_max_units(s.drop_last())
    }
}

impl Grid {
    /// Generates `max_grid_levels` buy levels below the price and as many
    /// sell levels above it, one spacing apart; non-positive buy prices are
    /// discarded.
    pub fn generate_grid_levels(&self, current_price: Dec, _tma: Dec, volatility: Dec) -> (r: (
        Vec<Dec>,
        Vec<Dec>,
    ))
        requires
            self.wf(),
            current_price.wf(),
            volatility.wf(),
            abs_int(current_price.units * self.grid_spacing_percentage.units) <= MAX_UNITS as int
                * SCALE as int,
            abs_int(
                mul_units(
                    current_price.units as int,
                    self.grid_spacing_percentage.units as int,
                ) * vol_multiplier_units(volatility.units as int),
            ) <= MAX_UNITS as int * SCALE as int,
            in_range(
                current_price.units - self.spacing_units(
                    current_price.units as int,
                    volatility.units as int,
                ) * self.max_grid_levels,
            ),
            in_range(
                current_price.units + self.spacing_units(
                    current_price.units as int,
                    volatility.units as int,
                ) * self.max_grid_levels,
            ),
        ensures
            ({
                let spacing = self.spacing_units(
                    current_price.units as int,
                    volatility.units as int,
                );
                &&& r.0@ == gen_buy_levels(
                    current_price.units as int,
                    spacing,
                    self.max_grid_levels as nat,
                )
                &&& r.1@ == gen_sell_levels(
                    current_price.units as int,
                    spacing,
                    self.max_grid_levels as nat,
                )
                &&& sorted_distinct(r.0@)
                &&& sorted_distinct(r.1@)
                &&& (forall|i: int| 0 <= i < r.0@.len() ==> (#[trigger] r.0@[i]).wf())
                &&& (forall|i: int| 0 <= i < r.1@.len() ==> (#[trigger] r.1@[i]).wf())
            }),
    {
        let grid_spacing: Dec = self.calculate_grid_spacing(current_price, volatility);
        let ghost p = current_price.units as int;
        let ghost sp = grid_spacing.units as int;
        let ghost m = self.max_grid_levels as int;
        let mut buy_levels: Vec<Dec> = Vec::new();
        let mut sell_levels: Vec<Dec> = Vec::new();
        let mut i: usize = 1;
        proof {
            assert(buy_levels@ =~= gen_buy_levels(p, sp, 0));
            assert(sell_levels@ =~= gen_sell_levels(p, sp, 0));
        }
        while i <= self.max_grid_levels
            invariant
                1 <= i <= self.max_grid_levels as int + 1,
                self.max_grid_levels <= GRID_CONFIG_LIMIT,
                current_price.wf(),
                grid_spacing.wf(),
                sp == grid_spacing.units as int,
                p == current_price.units as int,
                m == self.max_grid_levels as int,
                abs_int(sp * m) <= MAX_UNITS as int,
                in_range(p - sp * m),
                in_range(p + sp * m),
                buy_levels@ == gen_buy_levels(p, sp, (i - 1) as nat),
                sell_levels@ == gen_sell_levels(p, sp, (i - 1) as nat),
                sorted_distinct(buy_levels@),
                sorted_distinct(sell_levels@),
                buy_levels@.len() <= i - 1,
                sell_levels@.len() <= i - 1,
                forall|k: int| 0 <= k < buy_levels@.len() ==> (#[trigger] buy_levels@[k]).wf(),
                forall|k: int| 0 <= k < sell_levels@.len() ==> (#[trigger] sell_levels@[k]).wf(),
            decreases self.max_grid_levels as int + 1 - i,
        {
            proof {
                lemma_prod_between(sp, i as int, m);
                assert(sp * ((i as int) * (SCALE as int)) == (sp * (i as int)) * (SCALE as int))
                    by {
                    vstd::arithmetic::mul::lemma_mul_is_associative(sp, i as int, SCALE as int);
                }
            }
            let step: Dec = grid_spacing.mul(Dec::from_int(i as i64));
            proof {
                crate::dec::lemma_mul_units_by_whole(sp, i as int);
            }
            let buy_level: Dec = current_price.sub(step);
            let sell_level: Dec = current_price.add(step);
            if buy_level.gt(Dec::zero()) {
                proof {
                    crate::levels::lemma_insert_level_spec(buy_levels@, buy_level);
                }
                crate::levels::level_insert(&mut buy_levels, buy_level);
                proof {
                    assert forall|k: int| 0 <= k < buy_levels@.len() implies (#[trigger] buy_levels@[
                    k]).wf() by {
                        assert(buy_levels@.contains(buy_levels@[k]));
                    }
                }
            }
            proof {
                crate::levels::lemma_insert_level_spec(sell_levels@, sell_level);
            }
            crate::levels::level_insert(&mut sell_levels, sell_level);
            proof {
                assert forall|k: int| 0 <= k < sell_levels@.len() implies (#[trigger] sell_levels@[
                k]).wf() by {
                    assert(sell_levels@.contains(sell_levels@[k]));
                }
            }
            i = i + 1;
        }
        (buy_levels, sell_levels)
    }

    /// Appends the new price to the history, evicting the oldest entry when
    /// the configured bound would be exceeded.
    pub fn update_price_history(&self, price_history: &mut Vec<Dec>, new_price: Dec)
        requires
            forall|i: int|
                0 <= i < old(price_history)@.len() ==> (#[trigger] old(price_history)@[i]).wf(),
            new_price.wf(),
            old(price_history)@.len() <= GRID_CONFIG_LIMIT as int,
            self.price_history_length <= GRID_CONFIG_LIMIT,
            crate::dec::sum_abs_units(old(price_history)@.push(new_price)) <= MAX_UNITS as int,
        ensures
            final(price_history)@ == crate::sma::slide_window(
                old(price_history)@,
                new_price,
                self.price_history_length as nat,
            ),
            final(price_history)@.len() <= GRID_CONFIG_LIMIT as int,
            forall|i: int|
                0 <= i < final(price_history)@.len() ==> (#[trigger] final(price_history)@[i]).wf(),
            crate::dec::sum_abs_units(final(price_history)@) <= MAX_UNITS as int,
    {
        price_history.push(new_price);
        if price_history.len() > self.price_history_length {
            proof {
                crate::sma::lemma_sum_abs_drop_first(price_history@);
            }
            price_history.remove(0);
        }
    }

    /// Least, greatest and mean price of the history; all zero when it is
    /// empty.
    pub fn analyze_price_ranges(&self, price_history: &Vec<Dec>) -> (r: (Dec, Dec, Dec))
        requires
            forall|i: int| 0 <= i < price_history@.len() ==> (#[trigger] price_history@[i]).wf(),
            price_history@.len() <= GRID_CONFIG_LIMIT as int,
            crate::dec::sum_abs_units(price_history@) <= MAX_UNITS as int,
        ensures
            price_history@.len() == 0 ==> r.0.units == 0 && r.1.units == 0 && r.2.units == 0,
            price_history@.len() > 0 ==> {
                &&& r.0.units == seq_min_units(price_history@)
                &&& r.1.units == seq_max_units(price_history@)
                &&& r.2.units == div_units(
                    crate::dec::sum_units(price_history@),
                    price_history@.len() * SCALE as int,
                )
            },
    {
        if price_history.len() == 0 {
            return (Dec::zero(), Dec::zero(), Dec::zero());
        }
        let mut min_price: Dec = price_history[0];
        let mut max_price: Dec = price_history[0];
        let mut i: usize = 1;
        proof {
            assert(price_history@.take(1) =~= seq![price_history@[0]]);
        }
        while i < price_history.len()
            invariant
                1 <= i <= price_history@.len(),
                price_history@.len() >= 1,
                min_price.units == seq_min_units(price_history@.take(i as int)),
                max_price.units == seq_max_units(price_history@.take(i as int)),
                forall|k: int| 0 <= k < price_history@.len() ==> (#[trigger] price_history@[k]).wf(),
                min_price.wf(),
                max_price.wf(),
            decreases price_history@.len() - i,
        {
            proof {
                assert(price_history@.take(i as int + 1).drop_last() =~= price_history@.take(
                    i as int,
                ));
                assert(price_history@.take(i as int + 1).last() == price_history@[i as int]);
            }
            if price_history[i].lt(min_price) {
                min_price = price_history[i];
            }
            if price_history[i].gt(max_price) {
                max_price = price_history[i];
            }
            i = i + 1;
        }
        proof {
            assert(price_history@.take(price_history@.len() as int) =~= price_history@);
        }
        let sum: Dec = crate::sma::sum_window(price_history);
        proof {
            crate::dec::lemma_sum_le_sum_abs(price_history@);
            crate::dec::lemma_div_units_by_whole(
                crate::dec::sum_units(price_history@),
                price_history@.len() as int,
            );
        }
        let avg_price: Dec = sum.div(Dec::from_int(price_history.len() as i64));
        (min_price, max_price, avg_price)
    }

    /// All unfilled levels the price crossed since the previous cycle:
    /// downward through buy levels, upward through sell levels.
    pub fn check_grid_level_crosses(
        &self,
        grid_state: &InstrumentGridState,
        current_price: Dec,
    ) -> (r: Vec<(Dec, GridLevelType)>)
        ensures
            r@ == crossings_of(*grid_state, current_price),
    {
        let mut crosses: Vec<(Dec, GridLevelType)> = Vec::new();
        let previous_price: Dec = grid_state.current_price;
        let ghost filled = grid_state.filled_levels@;
        let mut i: usize = 0;
        proof {
            assert(grid_state.buy_levels@.take(0) =~= Seq::<Dec>::empty());
        }
        while i < grid_state.buy_levels.len()
            invariant
                0 <= i <= grid_state.buy_levels@.len(),
                filled == grid_state.filled_levels@,
                crosses@ == crossed_buys(
                    grid_state.buy_levels@.take(i as int),
                    filled,
                    grid_state.current_price,
                    current_price,
                ),
                previous_price == grid_state.current_price,
            decreases grid_state.buy_levels@.len() - i,
        {
            proof {
                assert(grid_state.buy_levels@.take(i as int + 1).drop_last()
                    =~= grid_state.buy_levels@.take(i as int));
            }
            let buy_level: Dec = grid_state.buy_levels[i];
            if !crate::levels::level_contains(&grid_state.filled_levels, buy_level) {
                if previous_price.gt(buy_level) && current_price.le(buy_level) {
                    crosses.push((buy_level, GridLevelType::Buy));
                }
            }
            i = i + 1;
        }
        proof {
            assert(grid_state.buy_levels@.take(grid_state.buy_levels@.len() as int)
                =~= grid_state.buy_levels@);
            assert(grid_state.sell_levels@.take(0) =~= Seq::<Dec>::empty());
            assert(crosses@ =~= crossed_buys(
                grid_state.buy_levels@,
                filled,
                grid_state.current_price,
                current_price,
            ) + crossed_sells(
                grid_state.sell_levels@.take(0),
                filled,
                grid_state.current_price,
                current_price,
            ));
        }
        let mut j: usize = 0;
        while j < grid_state.sell_levels.len()
            invariant
                0 <= j <= grid_state.sell_levels@.len(),
                filled == grid_state.filled_levels@,
                crosses@ == crossed_buys(
                    grid_state.buy_levels@,
                    filled,
                    grid_state.current_price,
                    current_price,
                ) + crossed_sells(
                    grid_state.sell_levels@.take(j as int),
                    filled,
                    grid_state.current_price,
                    current_price,
                ),
                previous_price == grid_state.current_price,
            decreases grid_state.sell_levels@.len() - j,
        {
            proof {
                assert(grid_state.sell_levels@.take(j as int + 1).drop_last()
                    =~= grid_state.sell_levels@.take(j as int));
            }
            let sell_level: Dec = grid_state.sell_levels[j];
            if !crate::levels::level_contains(&grid_state.filled_levels, sell_level) {
                if previous_price.lt(sell_level) && current_price.ge(sell_level) {
                    crosses.push((sell_level, GridLevelType::Sell));
                }
            }
            j = j + 1;
        }
        proof {
            assert(grid_state.sell_levels@.take(grid_state.sell_levels@.len() as int)
                =~= grid_state.sell_levels@);
        }
        crosses
    }
}

/// Ghost model of an instrument's grid state: the vectors as sequences.
#[verifier::ext_equal]
pub ghost struct GridStateModel {
    /// Price seen in the previous cycle.
    pub current_price: Dec,
    /// History of observed prices, oldest first.
    pub price_history: Seq<Dec>,
    /// Ascending distinct buy levels.
    pub buy_levels: Seq<Dec>,
    /// Ascending distinct sell levels.
    pub sell_levels: Seq<Dec>,
    /// Levels already triggered.
    pub filled_levels: Seq<Dec>,
    /// Spacing the state was created with.
    pub grid_spacing: Dec,
    /// Zone classified in the previous cycle.
    pub last_grid_zone: GridZone,
    /// Trend classified in the previous cycle.
    pub last_tma_state: TmaState,
}

impl View for InstrumentGridState {
    type V = GridStateModel;

    open spec fn view(&self) -> GridStateModel {
        GridStateModel {
            current_price: self.current_price,
            price_history: self.price_history@,
            buy_levels: self.buy_levels@,
            sell_levels: self.sell_levels@,
            filled_levels: self.filled_levels@,
            grid_spacing: self.grid_spacing,
            last_grid_zone: self.last_grid_zone,
            last_tma_state: self.last_tma_state,
        }
    }
}

/// The filled set after marking every crossed level, in crossing order.
pub open spec fn fill_levels(filled: Seq<Dec>, crosses: Seq<(Dec, GridLevelType)>) -> Seq<Dec>
    decreases crosses.len(),
{
    if crosses.len() == 0 {
        filled
    } else {
        fill_levels(
            crate::levels::insert_level_spec(filled, crosses[0].0),
            crosses.drop_first(),
        )
    }
}

/// Filling distributes over appending one more crossing.
pub proof fn lemma_fill_levels_push(filled: Seq<Dec>, crosses: Seq<(Dec, GridLevelType)>, c: (
    Dec,
    GridLevelType,
))
    ensures
        fill_levels(filled, crosses.push(c)) == crate::levels::insert_level_spec(
            fill_levels(filled, crosses),
            c.0,
        ),
    decreases crosses.len(),
{
    let one = crosses.push(c);
    if crosses.len() == 0 {
        assert(one[0] == c);
        assert(one.drop_first() =~= Seq::<(Dec, GridLevelType)>::empty());
        assert(fill_levels(filled, one) == fill_levels(
            crate::levels::insert_level_spec(filled, c.0),
            one.drop_first(),
        ));
        assert(fill_levels(crate::levels::insert_level_spec(filled, c.0), one.drop_first())
            == crate::levels::insert_level_spec(filled, c.0));
        assert(fill_levels(filled, crosses) == filled);
    } else {
        assert(one[0] == crosses[0]);
        assert(one.drop_first() =~= crosses.drop_first().push(c));
        lemma_fill_levels_push(
            crate::levels::insert_level_spec(filled, crosses[0].0),
            crosses.drop_first(),
            c,
        );
        assert(fill_levels(filled, one) == fill_levels(
            crate::levels::insert_level_spec(filled, crosses[0].0),
            crosses.drop_first().push(c),
        ));
        assert(fill_levels(filled, crosses) == fill_levels(
            crate::levels::insert_level_spec(filled, crosses[0].0),
            crosses.drop_first(),
        ));
    }
}

/// The signal emitted for one crossed level.
pub open spec fn signal_of_cross(
    c: (Dec, GridLevelType),
    exchange: u64,
    instrument: u64,
    tma: Dec,
    high: Dec,
    low: Dec,
    vol: Dec,
) -> GridSignal {
    GridSignal {
        signal_type: match c.1 {
            GridLevelType::Buy => SignalType::Buy,
            GridLevelType::Sell => SignalType::Sell,
        },
        exchange,
        instrument,
        price: c.0,
        tma,
        high_band: high,
        low_band: low,
        volatility: vol,
        grid_level: Some(c.0),
    }
}

/// The signals emitted for a run of crossings, in order.
pub open spec fn cross_signals(
    crosses: Seq<(Dec, GridLevelType)>,
    exchange: u64,
    instrument: u64,
    tma: Dec,
    high: Dec,
    low: Dec,
    vol: Dec,
) -> Seq<GridSignal>
    decreases crosses.len(),
{
    if crosses.len() == 0 {
        Seq::<GridSignal>::empty()
    } else {
        cross_signals(crosses.drop_last(), exchange, instrument, tma, high, low, vol).push(
            signal_of_cross(crosses.last(), exchange, instrument, tma, high, low, vol),
        )
    }
}

/// Every crossed buy level is one of the buy levels.
proof fn lemma_crossed_buys_membership(levels: Seq<Dec>, filled: Seq<Dec>, prev: Dec, cur: Dec)
    ensures
        forall|i: int|
            0 <= i < crossed_buys(levels, filled, prev, cur).len() ==> levels.contains(
                (#[trigger] crossed_buys(levels, filled, prev, cur)[i]).0,
            ),
    decreases levels.len(),
{
    if levels.len() > 0 {
        lemma_crossed_buys_membership(levels.drop_last(), filled, prev, cur);
        let r = crossed_buys(levels, filled, prev, cur);
        let r0 = crossed_buys(levels.drop_last(), filled, prev, cur);
        assert forall|i: int| 0 <= i < r.len() implies levels.contains((#[trigger] r[i]).0) by {
            if i < r0.len() {
                assert(r[i] == r0[i]);
                assert(levels.drop_last().contains(r0[i].0));
                let m = choose|m: int|
                    0 <= m < levels.drop_last().len() && levels.drop_last()[m] == r0[i].0;
                assert(levels[m] == r0[i].0);
            } else {
                assert(r[i].0 == levels.last());
                assert(levels[levels.len() - 1] == levels.last());
            }
        }
    }
}

/// Every crossed sell level is one of the sell levels.
proof fn lemma_crossed_sells_membership(levels: Seq<Dec>, filled: Seq<Dec>, prev: Dec, cur: Dec)
    ensures
        forall|i: int|
            0 <= i < crossed_sells(levels, filled, prev, cur).len() ==> levels.contains(
                (#[trigger] crossed_sells(levels, filled, prev, cur)[i]).0,
            ),
    decreases levels.len(),
{
    if levels.len() > 0 {
        lemma_crossed_sells_membership(levels.drop_last(), filled, prev, cur);
        let r = crossed_sells(levels, filled, prev, cur);
        let r0 = crossed_sells(levels.drop_last(), filled, prev, cur);
        assert forall|i: int| 0 <= i < r.len() implies levels.contains((#[trigger] r[i]).0) by {
            if i < r0.len() {
                assert(r[i] == r0[i]);
                assert(levels.drop_last().contains(r0[i].0));
                let m = choose|m: int|
                    0 <= m < levels.drop_last().len() && levels.drop_last()[m] == r0[i].0;
                assert(levels[m] == r0[i].0);
            } else {
                assert(r[i].0 == levels.last());
                assert(levels[levels.len() - 1] == levels.last());
            }
        }
    }
}

impl Grid {
    /// High band around the average.
    pub open spec fn high_band_of(self, tma: Dec) -> Dec {
        crate::dec::dec_of(tma.units + self.band_offset_units(tma))
    }

    /// Low band around the average.
    pub open spec fn low_band_of(self, tma: Dec) -> Dec {
        crate::dec::dec_of(tma.units - self.band_offset_units(tma))
    }

    /// Volatility value at the average.
    pub open spec fn vol_of(self, tma: Dec) -> Dec {
        crate::dec::dec_of(
            volatility_units(self.high_band_of(tma), self.low_band_of(tma), tma),
        )
    }

    /// The state created on first observation of an instrument.
    pub open spec fn fresh_model(self, price: Dec, vol: Dec) -> GridStateModel {
        GridStateModel {
            current_price: price,
            price_history: seq![price],
            buy_levels: Seq::<Dec>::empty(),
            sell_levels: Seq::<Dec>::empty(),
            filled_levels: Seq::<Dec>::empty(),
            grid_spacing: crate::dec::dec_of(
                self.spacing_units(price.units as int, vol.units as int),
            ),
            last_grid_zone: GridZone::BetweenBands,
            last_tma_state: TmaState::Sideways,
        }
    }

    /// The state a cycle works on: the stored one, or a fresh one.
    pub open spec fn snap_state(
        self,
        grids: Map<u64, GridStateModel>,
        instrument: u64,
        price: Dec,
        sma: Dec,
    ) -> GridStateModel {
        if grids.contains_key(instrument) {
            grids[instrument]
        } else {
            self.fresh_model(price, self.vol_of(sma))
        }
    }

    /// The level sets a cycle uses: regenerated when either is empty, else
    /// the stored ones.
    pub open spec fn cycle_levels(self, st0: GridStateModel, price: Dec, sma: Dec) -> (
        Seq<Dec>,
        Seq<Dec>,
    ) {
        if st0.buy_levels.len() == 0 || st0.sell_levels.len() == 0 {
            let sp = self.spacing_units(price.units as int, self.vol_of(sma).units as int);
            (
                gen_buy_levels(price.units as int, sp, self.max_grid_levels as nat),
                gen_sell_levels(price.units as int, sp, self.max_grid_levels as nat),
            )
        } else {
            (st0.buy_levels, st0.sell_levels)
        }
    }

    /// The crossings a cycle detects.
    pub open spec fn cycle_crossings(self, st0: GridStateModel, price: Dec, sma: Dec) -> Seq<
        (Dec, GridLevelType),
    > {
        let (buys, sells) = self.cycle_levels(st0, price, sma);
        crossed_buys(buys, st0.filled_levels, st0.current_price, price) + crossed_sells(
            sells,
            st0.filled_levels,
            st0.current_price,
            price,
        )
    }

    /// The state after one decision cycle at `price` with average `sma`.
    pub open spec fn step_model(self, st0: GridStateModel, price: Dec, sma: Dec) -> GridStateModel {
        let (buys, sells) = self.cycle_levels(st0, price, sma);
        GridStateModel {
            current_price: price,
            price_history: crate::sma::slide_window(
                st0.price_history,
                price,
                self.price_history_length as nat,
            ),
            buy_levels: buys,
            sell_levels: sells,
            filled_levels: fill_levels(
                st0.filled_levels,
                self.cycle_crossings(st0, price, sma),
            ),
            grid_spacing: st0.grid_spacing,
            last_grid_zone: zone_of(price, self.high_band_of(sma), self.low_band_of(sma)),
            last_tma_state: trend_of(price, sma, st0.current_price),
        }
    }

    /// The signals one decision cycle emits: one per crossing, else the
    /// fallback signal of the zone transition, if any.
    pub open spec fn signals_model(
        self,
        st0: GridStateModel,
        exchange: u64,
        instrument: u64,
        price: Dec,
        sma: Dec,
    ) -> Seq<GridSignal> {
        let high = self.high_band_of(sma);
        let low = self.low_band_of(sma);
        let vol = self.vol_of(sma);
        let crossings = self.cycle_crossings(st0, price, sma);
        if crossings.len() > 0 {
            cross_signals(crossings, exchange, instrument, sma, high, low, vol)
        } else {
            let t = fallback_signal(
                st0.last_grid_zone,
                zone_of(price, high, low),
                trend_of(price, sma, st0.current_price),
            );
            if t != SignalType::NoSignal {
                seq![
                    GridSignal {
                        signal_type: t,
                        exchange,
                        instrument,
                        price,
                        tma: sma,
                        high_band: high,
                        low_band: low,
                        volatility: vol,
                        grid_level: None,
                    },
                ]
            } else {
                Seq::<GridSignal>::empty()
            }
        }
    }

    /// Every arithmetic bound one decision cycle needs, for state `st0` at
    /// `price` with average `sma` (machine limits of the decimal range).
    pub open spec fn step_ok(self, st0: GridStateModel, price: Dec, sma: Dec) -> bool {
        let off = self.band_offset_units(sma);
        let spread = 2 * off;
        let v = volatility_units(self.high_band_of(sma), self.low_band_of(sma), sma);
        let sp = self.spacing_units(price.units as int, v);
        &&& abs_int(sma.units * self.band_percentage.units) <= MAX_UNITS as int * SCALE as int
        &&& in_range(sma.units + off)
        &&& in_range(sma.units - off)
        &&& in_range(spread)
        &&& (sma.units != 0 ==> in_range(div_units(spread, sma.units as int)))
        &&& (sma.units != 0 ==> 100 * abs_int(div_units(spread, sma.units as int))
            <= MAX_UNITS as int)
        &&& abs_int(price.units * self.grid_spacing_percentage.units) <= MAX_UNITS as int
            * SCALE as int
        &&& abs_int(
            mul_units(price.units as int, self.grid_spacing_percentage.units as int)
                * vol_multiplier_units(v),
        ) <= MAX_UNITS as int * SCALE as int
        &&& in_range(price.units - sp * self.max_grid_levels)
        &&& in_range(price.units + sp * self.max_grid_levels)
        &&& crate::dec::sum_abs_units(st0.price_history.push(price)) <= MAX_UNITS as int
        &&& st0.price_history.len() <= GRID_CONFIG_LIMIT as int
    }

    /// Runs one decision cycle for one instrument: classifies the price,
    /// lazily creates and updates the per-instrument state, generates levels
    /// when none exist, detects crossings (marking crossed levels filled)
    /// and falls back to a zone-transition signal when nothing crossed.
    /// Returns the emitted signals; without a price or a ready average it
    /// does nothing.
    pub fn process_instrument_signal(
        &mut self,
        exchange: u64,
        instrument: u64,
        price: Option<Dec>,
        sma: Option<Dec>,
    ) -> (signals: Vec<GridSignal>)
        requires
            old(self).wf(),
            price matches Some(p) ==> p.wf(),
            sma matches Some(s) ==> s.wf(),
            price matches Some(p) ==> sma matches Some(s) ==> old(self).step_ok(
                old(self).snap_state(
                    old(self).grids_view(),
                    instrument,
                    p,
                    s,
                ),
                p,
                s,
            ),
        ensures
            final(self).position_sizer == old(self).position_sizer,
            final(self).band_percentage == old(self).band_percentage,
            final(self).tma_period == old(self).tma_period,
            final(self).grid_spacing_percentage == old(self).grid_spacing_percentage,
            final(self).max_grid_levels == old(self).max_grid_levels,
            final(self).price_history_length == old(self).price_history_length,
            final(self).wf(),
            price is None || sma is None ==> final(self).instrument_grids@
                == old(self).instrument_grids@ && signals@ == Seq::<GridSignal>::empty(),
            price matches Some(p) ==> sma matches Some(s) ==> ({
                let st0 = old(self).snap_state(old(self).grids_view(), instrument, p, s);
                &&& final(self).grids_view() == old(self).grids_view().insert(
                    instrument,
                    old(self).step_model(st0, p, s),
                )
                &&& signals@ == old(self).signals_model(st0, exchange, instrument, p, s)
            }),
            forall|k: int| 0 <= k < signals@.len() ==> (#[trigger] signals@[k]).price.wf(),
    {
        let ghost cfg = *old(self);
        let p: Dec = match price {
            Some(p) => p,
            None => {
                return Vec::new();
            },
        };
        let s: Dec = match sma {
            Some(s) => s,
            None => {
                return Vec::new();
            },
        };
        let ghost st0 = cfg.snap_state(cfg.grids_view(), instrument, p, s);

        let tma: Dec = self.calculate_tma(s);
        let bands: (Dec, Dec) = self.calculate_bands(tma);
        let high_band: Dec = bands.0;
        let low_band: Dec = bands.1;
        let volatility: Dec = self.calculate_volatility(high_band, low_band, tma);
        let current_zone: GridZone = self.determine_grid_zone(p, high_band, low_band);
        proof {
            assert(high_band == cfg.high_band_of(s));
            assert(low_band == cfg.low_band_of(s));
            assert(volatility == cfg.vol_of(s));
        }

        let existing: Option<InstrumentGridState> = self.instrument_grids.remove(&instrument);
        let mut st: InstrumentGridState = match existing {
            Some(st) => st,
            None => {
                let spacing: Dec = self.calculate_grid_spacing(p, volatility);
                let mut first_history: Vec<Dec> = Vec::new();
                first_history.push(p);
                InstrumentGridState {
                    current_price: p,
                    price_history: first_history,
                    buy_levels: Vec::new(),
                    sell_levels: Vec::new(),
                    filled_levels: Vec::new(),
                    grid_spacing: spacing,
                    last_grid_zone: GridZone::BetweenBands,
                    last_tma_state: TmaState::Sideways,
                }
            },
        };
        proof {
            if !cfg.grids_view().contains_key(instrument) {
                assert(st.price_history@ =~= seq![p]);
                assert(seq![p].drop_last() =~= Seq::<Dec>::empty());
                assert(crate::dec::sum_abs_units(Seq::<Dec>::empty()) == 0);
                assert(seq![p].last() == p);
                assert(crate::dec::sum_abs_units(seq![p]) == abs_int(p.units as int));
            } else {
                assert(cfg.grids_view()[instrument] == cfg.instrument_grids@[instrument]@);
            }
            assert(st@ =~= st0);
            assert(st.wf());
        }

        let previous_zone: GridZone = st.last_grid_zone;
        let previous_price: Dec = st.current_price;

        self.update_price_history(&mut st.price_history, p);

        let tma_state: TmaState = self.determine_tma_state(p, tma, previous_price);

        if st.buy_levels.len() == 0 || st.sell_levels.len() == 0 {
            let generated: (Vec<Dec>, Vec<Dec>) = self.generate_grid_levels(p, tma, volatility);
            st.buy_levels = generated.0;
            st.sell_levels = generated.1;
        }
        proof {
            assert(st.buy_levels@ =~= cfg.cycle_levels(st0, p, s).0);
            assert(st.sell_levels@ =~= cfg.cycle_levels(st0, p, s).1);
        }

        let level_crosses: Vec<(Dec, GridLevelType)> = self.check_grid_level_crosses(&st, p);
        proof {
            assert(level_crosses@ == cfg.cycle_crossings(st0, p, s));
            lemma_crossed_buys_membership(st.buy_levels@, st0.filled_levels, st0.current_price, p);
            lemma_crossed_sells_membership(
                st.sell_levels@,
                st0.filled_levels,
                st0.current_price,
                p,
            );
        }

        let mut signals: Vec<GridSignal> = Vec::new();
        let mut k: usize = 0;
        proof {
            assert(level_crosses@.take(0) =~= Seq::<(Dec, GridLevelType)>::empty());
            assert(st.filled_levels@ == fill_levels(st0.filled_levels, level_crosses@.take(0)));
        }
        while k < level_crosses.len()
            invariant
                0 <= k <= level_crosses@.len(),
                signals@ == cross_signals(
                    level_crosses@.take(k as int),
                    exchange,
                    instrument,
                    tma,
                    high_band,
                    low_band,
                    volatility,
                ),
                st.filled_levels@ == fill_levels(
                    st0.filled_levels,
                    level_crosses@.take(k as int),
                ),
                sorted_distinct(st.filled_levels@),
                forall|i: int|
                    0 <= i < st.filled_levels@.len() ==> (#[trigger] st.filled_levels@[i]).wf(),
                forall|i: int|
                    0 <= i < level_crosses@.len() ==> (#[trigger] level_crosses@[i]).0.wf(),
                st.buy_levels@ == cfg.cycle_levels(st0, p, s).0,
                st.sell_levels@ == cfg.cycle_levels(st0, p, s).1,
                st.price_history@ == crate::sma::slide_window(
                    st0.price_history,
                    p,
                    cfg.price_history_length as nat,
                ),
                st.current_price == st0.current_price,
                st.grid_spacing == st0.grid_spacing,
                forall|i: int|
                    0 <= i < st.price_history@.len() ==> (#[trigger] st.price_history@[i]).wf(),
                st.price_history@.len() <= GRID_CONFIG_LIMIT as int,
                crate::dec::sum_abs_units(st.price_history@) <= MAX_UNITS as int,
                forall|i: int|
                    0 <= i < st.buy_levels@.len() ==> (#[trigger] st.buy_levels@[i]).wf(),
                forall|i: int|
                    0 <= i < st.sell_levels@.len() ==> (#[trigger] st.sell_levels@[i]).wf(),
                sorted_distinct(st.buy_levels@),
                sorted_distinct(st.sell_levels@),
                st.current_price.wf(),
                st.grid_spacing.wf(),
                forall|i: int| 0 <= i < signals@.len() ==> (#[trigger] signals@[i]).price.wf(),
            decreases level_crosses@.len() - k,
        {
            proof {
                assert(level_crosses@.take(k as int + 1).drop_last() =~= level_crosses@.take(
                    k as int,
                ));
                assert(level_crosses@.take(k as int).push(level_crosses@[k as int])
                    =~= level_crosses@.take(k as int + 1));
                lemma_fill_levels_push(
                    st0.filled_levels,
                    level_crosses@.take(k as int),
                    level_crosses@[k as int],
                );
                crate::levels::lemma_insert_level_spec(
                    st.filled_levels@,
                    level_crosses@[k as int].0,
                );
            }
            let cross: (Dec, GridLevelType) = level_crosses[k];
            let signal_type: SignalType = match cross.1 {
                GridLevelType::Buy => SignalType::Buy,
                GridLevelType::Sell => SignalType::Sell,
            };
            signals.push(
                GridSignal {
                    signal_type,
                    exchange,
                    instrument,
                    price: cross.0,
                    tma,
                    high_band,
                    low_band,
                    volatility,
                    grid_level: Some(cross.0),
                },
            );
            crate::levels::level_insert(&mut st.filled_levels, cross.0);
            proof {
                assert forall|i: int| 0 <= i < st.filled_levels@.len() implies (
                #[trigger] st.filled_levels@[i]).wf() by {
                    assert(st.filled_levels@.contains(st.filled_levels@[i]));
                }
            }
            k = k + 1;
        }
        proof {
            assert(level_crosses@.take(level_crosses@.len() as int) =~= level_crosses@);
        }

        if signals.len() == 0 {
            if self.should_generate_grid_signal(&previous_zone, &current_zone, &tma_state) {
                let signal_type: SignalType = self.get_grid_signal_type(
                    &previous_zone,
                    &current_zone,
                    &tma_state,
                );
                if !matches!(signal_type, SignalType::NoSignal) {
                    signals.push(
                        GridSignal {
                            signal_type,
                            exchange,
                            instrument,
                            price: p,
                            tma,
                            high_band,
                            low_band,
                            volatility,
                            grid_level: None,
                        },
                    );
                }
            }
        }

        st.current_price = p;
        st.last_grid_zone = current_zone;
        st.last_tma_state = tma_state;
        proof {
            let sm = cfg.step_model(st0, p, s);
            assert(st.current_price == sm.current_price);
            assert(st.price_history@ =~= sm.price_history);
            assert(st.buy_levels@ =~= sm.buy_levels);
            assert(st.sell_levels@ =~= sm.sell_levels);
            assert(st.filled_levels@ =~= sm.filled_levels);
            assert(st.grid_spacing == sm.grid_spacing);
            assert(st.last_grid_zone == sm.last_grid_zone);
            assert(st.last_tma_state == sm.last_tma_state);
            assert(st@ =~= cfg.step_model(st0, p, s));
        }
        self.instrument_grids.insert(instrument, st);
        proof {
            assert(final(self).instrument_grids@ =~= old(self).instrument_grids@.insert(
                instrument,
                st,
            ));
            lemma_grids_view_insert(old(self).instrument_grids@, instrument, st);
            assert(signals@ =~= cfg.signals_model(st0, exchange, instrument, p, s));
        }
        signals
    }

    /// Model view of the per-instrument state map.
    pub open spec fn grids_view(self) -> Map<u64, GridStateModel> {
        self.instrument_grids@.map_values(|st: InstrumentGridState| st@)
    }
}

/// Inserting into the state map inserts its model into the model map.
proof fn lemma_grids_view_insert(
    m: Map<u64, InstrumentGridState>,
    k: u64,
    v: InstrumentGridState,
)
    ensures
        m.insert(k, v).map_values(|st: InstrumentGridState| st@) == m.map_values(
            |st: InstrumentGridState| st@,
        ).insert(k, v@),
{
    assert(m.insert(k, v).map_values(|st: InstrumentGridState| st@) =~= m.map_values(
        |st: InstrumentGridState| st@,
    ).insert(k, v@));
}


impl Grid {
    /// The open-order request built for one signal on one side.
    pub open spec fn order_of_signal(self, signal: GridSignal, side: Side) -> OrderRequestOpen {
        OrderRequestOpen {
            exchange: signal.exchange,
            instrument: signal.instrument,
            strategy: StrategyTag::Grid,
            side,
            price: signal.price,
            quantity: crate::dec::dec_of(
                self.position_sizer.quantity_units(signal.price.units as int),
            ),
            kind: OrderKind::Limit,
            time_in_force: TimeInForce::GoodUntilEndOfDay,
        }
    }

    /// Orders for the buy signals of a run, in order. A signal whose
    /// quantity would leave the decimal range is skipped.
    pub open spec fn buy_orders_model(self, signals: Seq<GridSignal>) -> Seq<OrderRequestOpen>
        decreases signals.len(),
    {
        if signals.len() == 0 {
            Seq::<OrderRequestOpen>::empty()
        } else {
            self.buy_orders_model(signals.drop_last()) + if signals.last().signal_type
                == SignalType::Buy && self.position_sizer.quantity_in_range(
                signals.last().price.units as int,
            ) {
                seq![self.order_of_signal(signals.last(), Side::Buy)]
            } else {
                Seq::<OrderRequestOpen>::empty()
            }
        }
    }

    /// Orders for the sell signals of a run, in order.
    pub open spec fn sell_orders_model(self, signals: Seq<GridSignal>) -> Seq<OrderRequestOpen>
        decreases signals.len(),
    {
        if signals.len() == 0 {
            Seq::<OrderRequestOpen>::empty()
        } else {
            self.sell_orders_model(signals.drop_last()) + if signals.last().signal_type
                == SignalType::Sell && self.position_sizer.quantity_in_range(
                signals.last().price.units as int,
            ) {
                seq![self.order_of_signal(signals.last(), Side::Sell)]
            } else {
                Seq::<OrderRequestOpen>::empty()
            }
        }
    }

    /// One instrument of a decision cycle at the model level: the updated
    /// state map and the emitted signals.
    pub open spec fn run_step_model(
        self,
        grids: Map<u64, GridStateModel>,
        snap: InstrumentSnapshot,
    ) -> (Map<u64, GridStateModel>, Seq<GridSignal>) {
        if snap.price is Some && snap.sma is Some {
            let st0 = self.snap_state(grids, snap.instrument, snap.price->0, snap.sma->0);
            (
                grids.insert(
                    snap.instrument,
                    self.step_model(st0, snap.price->0, snap.sma->0),
                ),
                self.signals_model(
                    st0,
                    snap.exchange,
                    snap.instrument,
                    snap.price->0,
                    snap.sma->0,
                ),
            )
        } else {
            (grids, Seq::<GridSignal>::empty())
        }
    }

    /// A whole decision cycle over a sequence of instruments: the final
    /// state map, all buy orders, and all sell orders, each in instrument
    /// order.
    pub open spec fn run_model(
        self,
        grids: Map<u64, GridStateModel>,
        snaps: Seq<InstrumentSnapshot>,
    ) -> (Map<u64, GridStateModel>, Seq<OrderRequestOpen>, Seq<OrderRequestOpen>)
        decreases snaps.len(),
    {
        if snaps.len() == 0 {
            (grids, Seq::<OrderRequestOpen>::empty(), Seq::<OrderRequestOpen>::empty())
        } else {
            let (g1, sigs) = self.run_step_model(grids, snaps[0]);
            let (g2, buys, sells) = self.run_model(g1, snaps.drop_first());
            (
                g2,
                self.buy_orders_model(sigs) + buys,
                self.sell_orders_model(sigs) + sells,
            )
        }
    }

    /// Every step of a cycle over `snaps` meets its arithmetic bounds.
    pub open spec fn run_ok(
        self,
        grids: Map<u64, GridStateModel>,
        snaps: Seq<InstrumentSnapshot>,
    ) -> bool
        decreases snaps.len(),
    {
        if snaps.len() == 0 {
            true
        } else {
            let snap = snaps[0];
            &&& (snap.price matches Some(p) ==> p.wf())
            &&& (snap.sma matches Some(s) ==> s.wf())
            &&& (snap.price is Some && snap.sma is Some ==> self.step_ok(
                self.snap_state(grids, snap.instrument, snap.price->0, snap.sma->0),
                snap.price->0,
                snap.sma->0,
            ))
            &&& self.run_ok(self.run_step_model(grids, snap).0, snaps.drop_first())
        }
    }

    /// Builds the limit buy order for a buy signal: sized by the position
    /// sizer at the signal price, tagged with this strategy, valid for the
    /// rest of the day.
    pub fn create_buy_order(&self, signal: &GridSignal) -> (r: OrderRequestOpen)
        requires
            self.position_sizer.wf(),
            signal.price.wf(),
            self.position_sizer.quantity_in_range(signal.price.units as int),
        ensures
            r == self.order_of_signal(*signal, Side::Buy),
            r.quantity.wf(),
    {
        let quantity: Dec = self.position_sizer.calculate_quantity(signal.price);
        OrderRequestOpen {
            exchange: signal.exchange,
            instrument: signal.instrument,
            strategy: StrategyTag::Grid,
            side: Side::Buy,
            price: signal.price,
            quantity,
            kind: OrderKind::Limit,
            time_in_force: TimeInForce::GoodUntilEndOfDay,
        }
    }

    /// Builds the limit sell order for a sell signal, sized like a buy.
    pub fn create_sell_order(&self, signal: &GridSignal) -> (r: OrderRequestOpen)
        requires
            self.position_sizer.wf(),
            signal.price.wf(),
            self.position_sizer.quantity_in_range(signal.price.units as int),
        ensures
            r == self.order_of_signal(*signal, Side::Sell),
            r.quantity.wf(),
    {
        let quantity: Dec = self.position_sizer.calculate_quantity(signal.price);
        OrderRequestOpen {
            exchange: signal.exchange,
            instrument: signal.instrument,
            strategy: StrategyTag::Grid,
            side: Side::Sell,
            price: signal.price,
            quantity,
            kind: OrderKind::Limit,
            time_in_force: TimeInForce::GoodUntilEndOfDay,
        }
    }

    /// Runs one decision cycle over every instrument: processes each
    /// snapshot through the state machine and returns no cancellations and
    /// the resulting orders, all buys first, then all sells, in instrument
    /// order.
    #[verifier::rlimit(100)]
    pub fn generate_algo_orders(&mut self, instruments: &Vec<InstrumentSnapshot>) -> (r: (
        Vec<OrderRequestCancel>,
        Vec<OrderRequestOpen>,
    ))
        requires
            old(self).wf(),
            old(self).run_ok(old(self).grids_view(), instruments@),
        ensures
            final(self).position_sizer == old(self).position_sizer,
            final(self).band_percentage == old(self).band_percentage,
            final(self).tma_period == old(self).tma_period,
            final(self).grid_spacing_percentage == old(self).grid_spacing_percentage,
            final(self).max_grid_levels == old(self).max_grid_levels,
            final(self).price_history_length == old(self).price_history_length,
            final(self).wf(),
            r.0@ == Seq::<OrderRequestCancel>::empty(),
            ({
                let (g, buys, sells) = old(self).run_model(
                    old(self).grids_view(),
                    instruments@,
                );
                &&& final(self).grids_view() == g
                &&& r.1@ == buys + sells
            }),
    {
        let ghost cfg = *old(self);
        let ghost total = cfg.run_model(cfg.grids_view(), instruments@);
        let mut buy_orders: Vec<OrderRequestOpen> = Vec::new();
        let mut sell_orders: Vec<OrderRequestOpen> = Vec::new();
        let mut i: usize = 0;
        proof {
            assert(instruments@.skip(0) =~= instruments@);
        }
        while i < instruments.len()
            invariant
                0 <= i <= instruments@.len(),
                self.position_sizer == cfg.position_sizer,
                self.band_percentage == cfg.band_percentage,
                self.tma_period == cfg.tma_period,
                self.grid_spacing_percentage == cfg.grid_spacing_percentage,
                self.max_grid_levels == cfg.max_grid_levels,
                self.price_history_length == cfg.price_history_length,
                self.wf(),
                cfg.run_ok(self.grids_view(), instruments@.skip(i as int)),
                total == ({
                    let (g, b, s) = cfg.run_model(
                        self.grids_view(),
                        instruments@.skip(i as int),
                    );
                    (g, buy_orders@ + b, sell_orders@ + s)
                }),
            decreases instruments@.len() - i,
        {
            let ghost rest = instruments@.skip(i as int);
            let ghost grids0 = self.grids_view();
            proof {
                assert(rest[0] == instruments@[i as int]);
                assert(rest.drop_first() =~= instruments@.skip(i as int + 1));
                lemma_config_spec_equal(cfg, *self);
            }
            let snap: InstrumentSnapshot = instruments[i];
            let signals: Vec<GridSignal> = self.process_instrument_signal(
                snap.exchange,
                snap.instrument,
                snap.price,
                snap.sma,
            );
            proof {
                lemma_config_spec_equal(cfg, *self);
                assert(self.grids_view() =~= cfg.run_step_model(grids0, snap).0);
                assert(signals@ == cfg.run_step_model(grids0, snap).1);
            }
            let mut j: usize = 0;
            proof {
                assert(signals@.take(0) =~= Seq::<GridSignal>::empty());
            }
            let ghost buys_before = buy_orders@;
            let ghost sells_before = sell_orders@;
            while j < signals.len()
                invariant
                    0 <= j <= signals@.len(),
                    self.position_sizer == cfg.position_sizer,
                    self.position_sizer.wf(),
                    forall|k: int| 0 <= k < signals@.len() ==> (#[trigger] signals@[k]).price.wf(),
                    buy_orders@ == buys_before + cfg.buy_orders_model(signals@.take(j as int)),
                    sell_orders@ == sells_before + cfg.sell_orders_model(
                        signals@.take(j as int),
                    ),
                decreases signals@.len() - j,
            {
                proof {
                    assert(signals@.take(j as int + 1).drop_last() =~= signals@.take(j as int));
                    assert(signals@.take(j as int + 1).last() == signals@[j as int]);
                }
                let signal: GridSignal = signals[j];
                match signal.signal_type {
                    SignalType::Buy => {
                        if self.position_sizer.quantity_ok(signal.price) {
                            let order: OrderRequestOpen = self.create_buy_order(&signal);
                            buy_orders.push(order);
                        }
                    },
                    SignalType::Sell => {
                        if self.position_sizer.quantity_ok(signal.price) {
                            let order: OrderRequestOpen = self.create_sell_order(&signal);
                            sell_orders.push(order);
                        }
                    },
                    SignalType::NoSignal => {},
                }
                j = j + 1;
            }
            proof {
                assert(signals@.take(signals@.len() as int) =~= signals@);
                assert(buy_orders@ == buys_before + cfg.buy_orders_model(signals@));
                assert(sell_orders@ == sells_before + cfg.sell_orders_model(signals@));
                let g1 = cfg.run_step_model(grids0, snap).0;
                let sigs0 = cfg.run_step_model(grids0, snap).1;
                let rm1 = cfg.run_model(g1, instruments@.skip(i as int + 1));
                assert(cfg.run_model(grids0, rest) == (
                    rm1.0,
                    cfg.buy_orders_model(sigs0) + rm1.1,
                    cfg.sell_orders_model(sigs0) + rm1.2,
                ));
                assert(buy_orders@ + rm1.1 =~= buys_before + (cfg.buy_orders_model(sigs0)
                    + rm1.1));
                assert(sell_orders@ + rm1.2 =~= sells_before + (cfg.sell_orders_model(sigs0)
                    + rm1.2));
            }
            i = i + 1;
        }
        proof {
            assert(instruments@.skip(instruments@.len() as int) =~= Seq::<
                InstrumentSnapshot,
            >::empty());
            assert(buy_orders@ + Seq::<OrderRequestOpen>::empty() =~= buy_orders@);
            assert(sell_orders@ + Seq::<OrderRequestOpen>::empty() =~= sell_orders@);
        }
        let mut all_orders: Vec<OrderRequestOpen> = buy_orders;
        let mut k: usize = 0;
        let ghost buys_done = all_orders@;
        while k < sell_orders.len()
            invariant
                0 <= k <= sell_orders@.len(),
                all_orders@ == buys_done + sell_orders@.take(k as int),
            decreases sell_orders@.len() - k,
        {
            proof {
                assert(sell_orders@.take(k as int + 1) =~= sell_orders@.take(k as int).push(
                    sell_orders@[k as int],
                ));
            }
            all_orders.push(sell_orders[k]);
            k = k + 1;
        }
        proof {
            assert(sell_orders@.take(sell_orders@.len() as int) =~= sell_orders@);
        }
        (Vec::new(), all_orders)
    }

    /// Closing positions is left to the execution runtime: this strategy
    /// requests no cancellations and no closing orders.
    pub fn close_positions_requests(&self) -> (r: (
        Vec<OrderRequestCancel>,
        Vec<OrderRequestOpen>,
    ))
        ensures
            r.0@ == Seq::<OrderRequestCancel>::empty(),
            r.1@ == Seq::<OrderRequestOpen>::empty(),
    {
        (Vec::new(), Vec::new())
    }
}

/// Two strategies with the same configuration agree on every model
/// function, whatever their state maps hold.
proof fn lemma_config_spec_equal(a: Grid, b: Grid)
    requires
        a.position_sizer == b.position_sizer,
        a.band_percentage == b.band_percentage,
        a.tma_period == b.tma_period,
        a.grid_spacing_percentage == b.grid_spacing_percentage,
        a.max_grid_levels == b.max_grid_levels,
        a.price_history_length == b.price_history_length,
    ensures
        forall|grids: Map<u64, GridStateModel>, inst: u64, p: Dec, s: Dec|
            #[trigger] a.snap_state(grids, inst, p, s) == b.snap_state(grids, inst, p, s),
        forall|st0: GridStateModel, p: Dec, s: Dec| #[trigger]
            a.step_model(st0, p, s) == b.step_model(st0, p, s),
        forall|st0: GridStateModel, p: Dec, s: Dec| #[trigger]
            a.step_ok(st0, p, s) == b.step_ok(st0, p, s),
        forall|st0: GridStateModel, e: u64, inst: u64, p: Dec, s: Dec|
            #[trigger] a.signals_model(st0, e, inst, p, s) == b.signals_model(
                st0,
                e,
                inst,
                p,
                s,
            ),
        forall|sigs: Seq<GridSignal>| #[trigger] a.buy_orders_model(sigs) == b.buy_orders_model(
            sigs,
        ),
        forall|sigs: Seq<GridSignal>| #[trigger] a.sell_orders_model(sigs)
            == b.sell_orders_model(sigs),
{
    assert forall|st0: GridStateModel, p: Dec, s: Dec| #[trigger]
        a.step_model(st0, p, s) == b.step_model(st0, p, s) by {
        assert(a.step_model(st0, p, s) =~= b.step_model(st0, p, s));
    }
    assert forall|sigs: Seq<GridSignal>| #[trigger] a.buy_orders_model(sigs)
        == b.buy_orders_model(sigs) by {
        lemma_orders_model_config(a, b, sigs);
    }
    assert forall|sigs: Seq<GridSignal>| #[trigger] a.sell_orders_model(sigs)
        == b.sell_orders_model(sigs) by {
        lemma_orders_model_config(a, b, sigs);
    }
}

/// Order-building folds depend only on the configuration.
proof fn lemma_orders_model_config(a: Grid, b: Grid, sigs: Seq<GridSignal>)
    requires
        a.position_sizer == b.position_sizer,
    ensures
        a.buy_orders_model(sigs) == b.buy_orders_model(sigs),
        a.sell_orders_model(sigs) == b.sell_orders_model(sigs),
    decreases sigs.len(),
{
    if sigs.len() > 0 {
        lemma_orders_model_config(a, b, sigs.drop_last());
    }
}


/// Filling preserves order and every already-filled level.
proof fn lemma_fill_levels_superset(filled: Seq<Dec>, crosses: Seq<(Dec, GridLevelType)>)
    requires
        sorted_distinct(filled),
    ensures
        sorted_distinct(fill_levels(filled, crosses)),
        forall|x: Dec| filled.contains(x) ==> #[trigger] fill_levels(filled, crosses).contains(x),
    decreases crosses.len(),
{
    if crosses.len() > 0 {
        crate::levels::lemma_insert_level_spec(filled, crosses[0].0);
        lemma_fill_levels_superset(
            crate::levels::insert_level_spec(filled, crosses[0].0),
            crosses.drop_first(),
        );
    }
}

/// No crossed buy level was already filled.
proof fn lemma_crossed_buys_unfilled(levels: Seq<Dec>, filled: Seq<Dec>, prev: Dec, cur: Dec)
    ensures
        forall|i: int|
            0 <= i < crossed_buys(levels, filled, prev, cur).len() ==> !filled.contains(
                (#[trigger] crossed_buys(levels, filled, prev, cur)[i]).0,
            ),
    decreases levels.len(),
{
    if levels.len() > 0 {
        lemma_crossed_buys_unfilled(levels.drop_last(), filled, prev, cur);
        let r = crossed_buys(levels, filled, prev, cur);
        let r0 = crossed_buys(levels.drop_last(), filled, prev, cur);
        assert forall|i: int| 0 <= i < r.len() implies !filled.contains((#[trigger] r[i]).0) by {
            if i < r0.len() {
                assert(r[i] == r0[i]);
            }
        }
    }
}

/// No crossed sell level was already filled.
proof fn lemma_crossed_sells_unfilled(levels: Seq<Dec>, filled: Seq<Dec>, prev: Dec, cur: Dec)
    ensures
        forall|i: int|
            0 <= i < crossed_sells(levels, filled, prev, cur).len() ==> !filled.contains(
                (#[trigger] crossed_sells(levels, filled, prev, cur)[i]).0,
            ),
    decreases levels.len(),
{
    if levels.len() > 0 {
        lemma_crossed_sells_unfilled(levels.drop_last(), filled, prev, cur);
        let r = crossed_sells(levels, filled, prev, cur);
        let r0 = crossed_sells(levels.drop_last(), filled, prev, cur);
        assert forall|i: int| 0 <= i < r.len() implies !filled.contains((#[trigger] r[i]).0) by {
            if i < r0.len() {
                assert(r[i] == r0[i]);
            }
        }
    }
}

/// Crossing signals map the crossings one to one, carrying each level.
proof fn lemma_cross_signals_pointwise(
    crosses: Seq<(Dec, GridLevelType)>,
    exchange: u64,
    instrument: u64,
    tma: Dec,
    high: Dec,
    low: Dec,
    vol: Dec,
)
    ensures
        cross_signals(crosses, exchange, instrument, tma, high, low, vol).len() == crosses.len(),
        forall|i: int|
            0 <= i < crosses.len() ==> #[trigger] cross_signals(
                crosses,
                exchange,
                instrument,
                tma,
                high,
                low,
                vol,
            )[i] == signal_of_cross(crosses[i], exchange, instrument, tma, high, low, vol),
    decreases crosses.len(),
{
    if crosses.len() > 0 {
        lemma_cross_signals_pointwise(
            crosses.drop_last(),
            exchange,
            instrument,
            tma,
            high,
            low,
            vol,
        );
        assert(forall|i: int|
            0 <= i < crosses.len() - 1 ==> (#[trigger] crosses.drop_last()[i]) == crosses[i]);
    }
}

/// Sticky filled levels: once a level is marked filled it stays filled
/// through every later cycle, and no later cycle emits a signal for it —
/// crossing detection excludes filled levels and filling only inserts. A
/// crossed level therefore never re-triggers until the level sets are
/// regenerated, which never happens while they are non-empty.
pub proof fn lemma_filled_level_never_resignals(
    cfg: Grid,
    st0: GridStateModel,
    exchange: u64,
    instrument: u64,
    price: Dec,
    sma: Dec,
    level: Dec,
)
    requires
        sorted_distinct(st0.filled_levels),
        st0.filled_levels.contains(level),
    ensures
        cfg.step_model(st0, price, sma).filled_levels.contains(level),
        forall|i: int|
            0 <= i < cfg.signals_model(st0, exchange, instrument, price, sma).len() ==> (
            #[trigger] cfg.signals_model(st0, exchange, instrument, price, sma)[i]).grid_level
                != Some(level),
{
    let crossings = cfg.cycle_crossings(st0, price, sma);
    let (buys, sells) = cfg.cycle_levels(st0, price, sma);
    lemma_fill_levels_superset(st0.filled_levels, crossings);
    lemma_crossed_buys_unfilled(buys, st0.filled_levels, st0.current_price, price);
    lemma_crossed_sells_unfilled(sells, st0.filled_levels, st0.current_price, price);
    let cb = crossed_buys(buys, st0.filled_levels, st0.current_price, price);
    let cs = crossed_sells(sells, st0.filled_levels, st0.current_price, price);
    assert(forall|i: int| 0 <= i < crossings.len() ==> !st0.filled_levels.contains(
        (#[trigger] crossings[i]).0,
    )) by {
        assert(forall|i: int| 0 <= i < cb.len() ==> (#[trigger] crossings[i]) == cb[i]);
        assert(forall|i: int|
            cb.len() <= i < crossings.len() ==> (#[trigger] crossings[i]) == cs[i - cb.len()]);
    }
    let high = cfg.high_band_of(sma);
    let low = cfg.low_band_of(sma);
    let vol = cfg.vol_of(sma);
    lemma_cross_signals_pointwise(crossings, exchange, instrument, sma, high, low, vol);
    let sigs = cfg.signals_model(st0, exchange, instrument, price, sma);
    assert forall|i: int| 0 <= i < sigs.len() implies (#[trigger] sigs[i]).grid_level != Some(
        level,
    ) by {
        if crossings.len() > 0 {
            assert(sigs[i] == signal_of_cross(
                crossings[i],
                exchange,
                instrument,
                sma,
                high,
                low,
                vol,
            ));
            assert(!st0.filled_levels.contains(crossings[i].0));
        }
    }
}

/// Sticky level sets: while both level sets are non-empty, a cycle keeps
/// them (and the stored spacing) exactly unchanged, whatever the price does
/// — levels are generated once per instrument lifetime.
pub proof fn lemma_levels_generated_once(cfg: Grid, st0: GridStateModel, price: Dec, sma: Dec)
    requires
        st0.buy_levels.len() > 0,
        st0.sell_levels.len() > 0,
    ensures
        cfg.step_model(st0, price, sma).buy_levels == st0.buy_levels,
        cfg.step_model(st0, price, sma).sell_levels == st0.sell_levels,
        cfg.step_model(st0, price, sma).grid_spacing == st0.grid_spacing,
{
}

/// A factor between `0` and `m` scales `s` to something between `0` and
/// `s * m` in magnitude.
proof fn lemma_prod_between(s: int, i: int, m: int)
    requires
        0 <= i <= m,
    ensures
        abs_int(s * i) <= abs_int(s * m),
        s * i <= abs_int(s * m),
        -abs_int(s * m) <= s * i,
{
    if s >= 0 {
        vstd::arithmetic::mul::lemma_mul_inequality(i, m, s);
        vstd::arithmetic::mul::lemma_mul_nonnegative(s, i);
        vstd::arithmetic::mul::lemma_mul_is_commutative(s, i);
        vstd::arithmetic::mul::lemma_mul_is_commutative(s, m);
        vstd::arithmetic::mul::lemma_mul_nonnegative(s, m);
    } else {
        vstd::arithmetic::mul::lemma_mul_inequality(i, m, -s);
        vstd::arithmetic::mul::lemma_mul_nonnegative(-s, i);
        assert((-s) * i == -(s * i) && (-s) * m == -(s * m)) by (nonlinear_arith);
        assert(i * (-s) == (-s) * i && m * (-s) == (-s) * m) by (nonlinear_arith);
    }
}

impl Default for Grid {
    /// A grid strategy over a $1,000 wallet with default parameters.
    fn default() -> (r: Self)
        ensures
            r.position_sizer.wallet_size.units == 1000int * SCALE as int,
            r.wf(),
    {
        Grid::new(Dec::from_int(1000))
    }
}

} // verus!
