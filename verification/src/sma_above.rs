//! Minimal moving-average instrument data and a placeholder strategy that
//! watches whether the last close sits above its five-sample average.

use vstd::prelude::*;
use crate::dec::{
    Dec, SCALE, MAX_UNITS, abs_int, div_units, sum_units, sum_abs_units, lemma_sum_le_sum_abs,
    lemma_div_units_by_whole,
};
use crate::order::{OrderRequestCancel, OrderRequestOpen};
use crate::sma::{slide_window, sum_window, lemma_sum_abs_drop_first};

verus! {

/// Window length of the average.
pub const SMA_PERIOD: usize = 5;

/// The last few closing prices of one instrument.
#[derive(Clone, Debug)]
pub struct SmaInstrumentData {
    /// Retained closes, oldest first; never more than the period.
    pub closes: Vec<Dec>,
}

impl SmaInstrumentData {
    /// Structural invariant: a bounded window of well-formed closes.
    pub open spec fn wf(self) -> bool {
        &&& self.closes@.len() <= SMA_PERIOD as int
        &&& (forall|i: int| 0 <= i < self.closes@.len() ==> (#[trigger] self.closes@[i]).wf())
        &&& sum_abs_units(self.closes@) <= MAX_UNITS as int
    }

    /// Creates an empty window.
    pub fn new() -> (r: SmaInstrumentData)
        ensures
            r.closes@.len() == 0,
            r.wf(),
    {
        SmaInstrumentData { closes: Vec::new() }
    }

    /// Records one close, evicting the oldest when the window is full.
    pub fn update(&mut self, close: Dec)
        requires
            old(self).wf(),
            close.wf(),
            sum_abs_units(old(self).closes@.push(close)) <= MAX_UNITS as int,
        ensures
            final(self).closes@ == slide_window(old(self).closes@, close, SMA_PERIOD as nat),
            final(self).wf(),
    {
        if self.closes.len() == SMA_PERIOD {
            proof {
                lemma_sum_abs_drop_first(self.closes@);
                lemma_sum_abs_push(self.closes@.drop_first(), close);
                lemma_sum_abs_push(old(self).closes@, close);
                assert(old(self).closes@.push(close).drop_first() =~= old(
                    self,
                ).closes@.drop_first().push(close));
            }
            self.closes.remove(0);
        }
        self.closes.push(close);
    }

    /// Mean of the window, or `None` while it holds fewer than five closes:
    /// the sum of the retained closes over the period.
    pub fn sma(&self) -> (r: Option<Dec>)
        requires
            self.wf(),
        ensures
            r is Some <==> self.closes@.len() >= SMA_PERIOD as int,
            r matches Some(v) ==> v.units == div_units(
                sum_units(self.closes@),
                (SMA_PERIOD as int) * (SCALE as int),
            ),
    {
        if self.closes.len() < SMA_PERIOD {
            None
        } else {
            let sum: Dec = sum_window(&self.closes);
            proof {
                lemma_sum_le_sum_abs(self.closes@);
                lemma_div_units_by_whole(sum_units(self.closes@), SMA_PERIOD as int);
            }
            Some(sum.div(Dec::from_int(SMA_PERIOD as i64)))
        }
    }

    /// Most recent close, if any.
    pub fn last_close(&self) -> (r: Option<Dec>)
        ensures
            self.closes@.len() == 0 ==> r is None,
            self.closes@.len() > 0 ==> r == Some(self.closes@.last()),
    {
        if self.closes.len() == 0 {
            None
        } else {
            Some(self.closes[self.closes.len() - 1])
        }
    }
}

impl Default for SmaInstrumentData {
    /// An empty window.
    fn default() -> (r: Self)
        ensures
            r.closes@.len() == 0,
            r.wf(),
    {
        SmaInstrumentData::new()
    }
}

/// Per-instrument state of the placeholder strategy.
#[derive(Clone, Debug)]
pub struct SmaStrategyInstrumentState {
    /// The instrument's close window.
    pub instrument: SmaInstrumentData,
}

impl SmaStrategyInstrumentState {
    /// The live price of this instrument: its most recent close.
    pub fn price(&self) -> (r: Option<Dec>)
        ensures
            self.instrument.closes@.len() == 0 ==> r is None,
            self.instrument.closes@.len() > 0 ==> r == Some(self.instrument.closes@.last()),
    {
        self.instrument.last_close()
    }
}

impl Default for SmaStrategyInstrumentState {
    /// An empty state.
    fn default() -> (r: Self)
        ensures
            r.instrument.closes@.len() == 0,
            r.instrument.wf(),
    {
        SmaStrategyInstrumentState { instrument: SmaInstrumentData::new() }
    }
}

/// Placeholder close-above-average strategy: its trading rule is not wired
/// up, so it emits no orders.
#[derive(Clone, Copy, Debug, PartialEq, Eq, Structural)]
pub struct SmaStrategy;

impl SmaStrategy {
    /// Emits no cancellations and no orders.
    pub fn generate_algo_orders(&self) -> (r: (Vec<OrderRequestCancel>, Vec<OrderRequestOpen>))
        ensures
            r.0@ == Seq::<OrderRequestCancel>::empty(),
            r.1@ == Seq::<OrderRequestOpen>::empty(),
    {
        (Vec::new(), Vec::new())
    }
}

/// Appending a close adds its magnitude to the absolute sum.
proof fn lemma_sum_abs_push(s: Seq<Dec>, x: Dec)
    ensures
        sum_abs_units(s.push(x)) == sum_abs_units(s) + abs_int(x.units as int),
        sum_units(s.push(x)) == sum_units(s) + x.units,
{
    assert(s.push(x).drop_last() =~= s);
    assert(s.push(x).last() == x);
}

} // verus!
