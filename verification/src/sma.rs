//! Simple moving average over a bounded FIFO of the most recent prices.
//!
//! The window never holds more than `period` prices; the oldest is evicted
//! when a new price would exceed that. The value is the exact arithmetic mean
//! of the retained prices and is defined only once the window is full.

use vstd::prelude::*;
use crate::dec::{
    Dec, SCALE, MAX_UNITS, abs_int, in_range, div_units, sum_units, sum_abs_units,
    lemma_sum_take_step, lemma_sum_le_sum_abs, lemma_sum_abs_take_le, lemma_div_units_by_whole,
};

verus! {

/// Simple moving average of the last `period` prices.
#[derive(Clone, Debug)]
pub struct SMA {
    /// Number of prices averaged; the window never grows beyond it.
    pub period: usize,
    /// Retained prices, oldest first.
    pub prices: Vec<Dec>,
    /// Mean of the window, defined once the window is full.
    pub current_value: Option<Dec>,
}

/// The window after appending `price` to `window` and evicting the oldest
/// entry if the length would exceed `period`.
pub open spec fn slide_window(window: Seq<Dec>, price: Dec, period: nat) -> Seq<Dec> {
    if window.len() + 1 > period {
        window.push(price).drop_first()
    } else {
        window.push(price)
    }
}

/// The window retained after feeding every price of `fed`, in order, to an
/// average of `period` prices.
pub open spec fn window_after(period: nat, fed: Seq<Dec>) -> Seq<Dec>
    decreases fed.len(),
{
    if fed.len() == 0 {
        Seq::<Dec>::empty()
    } else {
        slide_window(window_after(period, fed.drop_last()), fed.last(), period)
    }
}

/// Sliding-window law: after any sequence of updates the retained window is
/// exactly the most recent `period` prices fed — all of them while fewer than
/// `period` have been seen. The mean is therefore undefined for fewer than
/// `period` prices, becomes defined exactly at `period`, and slides by one
/// price from then on.
pub proof fn lemma_window_is_recent_suffix(period: nat, fed: Seq<Dec>)
    requires
        period >= 1,
    ensures
        window_after(period, fed) == if fed.len() <= period {
            fed
        } else {
            fed.subrange(fed.len() - period, fed.len() as int)
        },
    decreases fed.len(),
{
    if fed.len() > 0 {
        lemma_window_is_recent_suffix(period, fed.drop_last());
        let prev = window_after(period, fed.drop_last());
        if fed.len() <= period {
            assert(prev.push(fed.last()) =~= fed);
        } else {
            assert(prev.push(fed.last()).drop_first() =~= fed.subrange(
                fed.len() - period,
                fed.len() as int,
            ));
        }
    } else {
        assert(window_after(period, fed) =~= fed);
    }
}

impl SMA {
    /// Units of the mean of the retained window.
    pub open spec fn value_units(self) -> int {
        div_units(sum_units(self.prices@), (self.period as int) * (SCALE as int))
    }

    /// Structural invariant: a positive, machine-representable period, a
    /// window no longer than the period whose absolute sum stays in the
    /// decimal range, and a current value that is the mean of the window
    /// exactly when the window is full.
    pub open spec fn wf(self) -> bool {
        &&& 1 <= self.period
        &&& self.period as int <= 9_223_372_036_854_775_807int
        &&& self.prices@.len() <= self.period
        &&& forall|i: int| 0 <= i < self.prices@.len() ==> (#[trigger] self.prices@[i]).wf()
        &&& sum_abs_units(self.prices@) <= MAX_UNITS as int
        &&& if self.prices@.len() == self.period {
            self.current_value is Some && self.current_value->0.units == self.value_units()
        } else {
            self.current_value is None
        }
    }

    /// Creates an empty average over windows of `period` prices.
    pub fn new(period: usize) -> (r: SMA)
        requires
            1 <= period,
            period as int <= 9_223_372_036_854_775_807int,
        ensures
            r.period == period,
            r.prices@.len() == 0,
            r.current_value is None,
            r.wf(),
    {
        SMA { period, prices: Vec::new(), current_value: None }
    }

    /// Appends `price`, evicting the oldest retained price if the window
    /// would exceed the period, and recomputes the mean once the window is
    /// full.
    pub fn update(&mut self, price: Dec)
        requires
            old(self).wf(),
            price.wf(),
            sum_abs_units(old(self).prices@.push(price)) <= MAX_UNITS as int,
        ensures
            final(self).period == old(self).period,
            final(self).prices@ == slide_window(old(self).prices@, price, old(self).period as nat),
            final(self).wf(),
    {
        self.prices.push(price);
        if self.prices.len() > self.period {
            proof {
                assert(self.prices@.drop_first() =~= old(self).prices@.push(price).drop_first());
                lemma_sum_abs_drop_first(self.prices@);
            }
            self.prices.remove(0);
        }
        if self.prices.len() >= self.period {
            let sum: Dec = sum_window(&self.prices);
            proof {
                lemma_sum_le_sum_abs(self.prices@);
                lemma_div_units_by_whole(sum_units(self.prices@), self.period as int);
            }
            let divisor: Dec = Dec::from_int(self.period as i64);
            self.current_value = Some(sum.div(divisor));
        }
    }

    /// Mean of the window, or `None` while fewer than `period` prices are
    /// retained.
    pub fn value(&self) -> (r: Option<Dec>)
        requires
            self.wf(),
        ensures
            r is Some <==> self.prices@.len() == self.period,
            r is Some ==> r->0.units == self.value_units(),
    {
        self.current_value
    }

    /// Whether the window holds enough prices for the mean to be defined.
    pub fn is_ready(&self) -> (r: bool)
        ensures
            r == (self.prices@.len() >= self.period),
    {
        self.prices.len() >= self.period
    }

    /// Clears all retained state; the period is kept.
    pub fn reset(&mut self)
        ensures
            final(self).period == old(self).period,
            final(self).prices@.len() == 0,
            final(self).current_value is None,
            old(self).wf() ==> final(self).wf(),
    {
        self.prices.clear();
        self.current_value = None;
    }
}

impl Default for SMA {
    /// An average over windows of 14 prices.
    fn default() -> (r: Self)
        ensures
            r.period == 14,
            r.prices@.len() == 0,
            r.current_value is None,
            r.wf(),
    {
        SMA::new(14)
    }
}

/// Sums a window of well-formed prices.
pub fn sum_window(prices: &Vec<Dec>) -> (r: Dec)
    requires
        forall|i: int| 0 <= i < prices@.len() ==> (#[trigger] prices@[i]).wf(),
        sum_abs_units(prices@) <= MAX_UNITS as int,
    ensures
        r.units == sum_units(prices@),
        r.wf(),
{
    let mut sum: i128 = 0;
    let mut i: usize = 0;
    proof {
        assert(prices@.take(0) =~= Seq::<Dec>::empty());
    }
    while i < prices.len()
        invariant
            0 <= i <= prices@.len(),
            forall|j: int| 0 <= j < prices@.len() ==> (#[trigger] prices@[j]).wf(),
            sum_abs_units(prices@) <= MAX_UNITS as int,
            sum == sum_units(prices@.take(i as int)),
            abs_int(sum as int) <= sum_abs_units(prices@.take(i as int)),
            sum_abs_units(prices@.take(i as int)) <= MAX_UNITS as int,
        decreases prices@.len() - i,
    {
        proof {
            lemma_sum_take_step(prices@, i as int);
            lemma_sum_abs_take_le(prices@, i + 1);
        }
        sum = sum + prices[i].units;
        i = i + 1;
    }
    proof {
        assert(prices@.take(prices@.len() as int) =~= prices@);
    }
    Dec { units: sum }
}

/// Dropping the first element cannot grow the absolute sum.
pub proof fn lemma_sum_abs_drop_first(s: Seq<Dec>)
    requires
        s.len() >= 1,
    ensures
        sum_abs_units(s.drop_first()) <= sum_abs_units(s),
        sum_units(s.drop_first()) == sum_units(s) - s[0].units,
    decreases s.len(),
{
    if s.len() == 1 {
        assert(s.drop_first() =~= Seq::<Dec>::empty());
        assert(s.drop_last() =~= Seq::<Dec>::empty());
    } else {
        lemma_sum_abs_drop_first(s.drop_last());
        assert(s.drop_first().drop_last() =~= s.drop_last().drop_first());
        assert(s.drop_first().last() == s.last());
    }
}

} // verus!
