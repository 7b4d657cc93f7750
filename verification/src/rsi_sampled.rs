//! Relative-strength index over a fixed count of sampled price changes.
//!
//! Unlike the rolling-time-window variant in [`crate::rsi`], this index
//! throttles updates to one per sample interval and keeps exactly the last
//! `period` changes, recomputing the averages whenever the window is full.

use vstd::prelude::*;
use crate::dec::{
    Dec, SCALE, abs_int, in_range, div_units, dec_of, rdiv_exec, sum_units, sum_abs_units,
    lemma_div_units_by_whole, lemma_rdiv_bound_by_multiple,
};
use crate::rsi::{gain_of, loss_of, rsi_units, WINDOW_SUM_LIMIT};
use crate::sma::{slide_window, sum_window};

verus! {

/// Relative-strength index over the last `period` sampled changes.
#[derive(Clone, Debug)]
pub struct RSI {
    /// Number of changes retained and averaged.
    pub period: usize,
    /// Recorded gains, oldest first, at most `period`.
    pub gains: Vec<Dec>,
    /// Recorded losses, oldest first, at most `period`.
    pub losses: Vec<Dec>,
    /// Most recent accepted price.
    pub last_price: Option<Dec>,
    /// Mean gain at the last recomputation.
    pub avg_gain: Option<Dec>,
    /// Mean loss at the last recomputation.
    pub avg_loss: Option<Dec>,
    /// Timestamp of the most recent accepted update (milliseconds).
    pub last_update: Option<i64>,
    /// Minimum time between accepted updates (milliseconds).
    pub sample_interval: u64,
}

impl RSI {
    /// Structural invariant: paired bounded queues of non-negative entries
    /// and paired bounded averages.
    pub open spec fn wf(self) -> bool {
        &&& self.sample_interval as int <= 9_223_372_036_854_775_807int
        &&& self.gains@.len() == self.losses@.len()
        &&& self.gains@.len() <= self.period
        &&& (forall|i: int| 0 <= i < self.gains@.len() ==> 0 <= (#[trigger] self.gains@[i]).units)
        &&& (forall|i: int| 0 <= i < self.losses@.len() ==> 0 <= (#[trigger] self.losses@[i]).units)
        &&& sum_units(self.gains@) <= WINDOW_SUM_LIMIT as int
        &&& sum_units(self.losses@) <= WINDOW_SUM_LIMIT as int
        &&& (self.avg_gain is Some <==> self.avg_loss is Some)
        &&& (self.avg_gain matches Some(g) ==> 0 <= g.units <= WINDOW_SUM_LIMIT as int)
        &&& (self.avg_loss matches Some(l) ==> 0 <= l.units <= WINDOW_SUM_LIMIT as int)
        &&& (self.last_price matches Some(p) ==> p.wf())
        &&& (self.last_update matches Some(t) ==> t >= 0)
    }

    /// Whether an update at `ts` is accepted: always for the first one, and
    /// otherwise only once the sample interval has elapsed.
    pub open spec fn accepts(self, ts: int) -> bool {
        match self.last_update {
            None => true,
            Some(lu) => (if ts - lu >= 0 {
                ts - lu
            } else {
                0
            }) >= self.sample_interval,
        }
    }

    /// Units of the mean of a full window of `period` entries.
    pub open spec fn window_avg_units(s: Seq<Dec>, period: int) -> int {
        div_units(sum_units(s), period * (SCALE as int))
    }

    /// Creates an index over `period` sampled changes, with the default
    /// five-second sample interval.
    pub fn new(period: usize) -> (r: RSI)
        ensures
            r.period == period,
            r.gains@.len() == 0,
            r.losses@.len() == 0,
            r.last_price is None,
            r.avg_gain is None,
            r.avg_loss is None,
            r.last_update is None,
            r.sample_interval == 5000u64,
            r.wf(),
    {
        RSI {
            period,
            gains: Vec::new(),
            losses: Vec::new(),
            last_price: None,
            avg_gain: None,
            avg_loss: None,
            last_update: None,
            sample_interval: 5000,
        }
    }

    /// Records a sampled price observation at `timestamp` (milliseconds).
    ///
    /// An update within the sample interval of the previous accepted one is
    /// ignored entirely. Otherwise the signed change against the last price
    /// is appended (the oldest entry evicted beyond `period`), and once
    /// exactly `period` entries remain both averages are recomputed.
    #[verifier::rlimit(60)]
    pub fn update_with_time(&mut self, price: Dec, timestamp: i64)
        requires
            old(self).wf(),
            price.wf(),
            timestamp >= 0,
            1 <= old(self).period,
            old(self).period as int <= 9_223_372_036_854_775_807int,
            old(self).last_price matches Some(lp) ==> lp != price ==> in_range(
                price.units - lp.units,
            ),
            old(self).last_price matches Some(lp) ==> {
                &&& sum_units(old(self).gains@) + abs_int(price.units - lp.units)
                    <= WINDOW_SUM_LIMIT as int
                &&& sum_units(old(self).losses@) + abs_int(price.units - lp.units)
                    <= WINDOW_SUM_LIMIT as int
            },
        ensures
            final(self).period == old(self).period,
            final(self).sample_interval == old(self).sample_interval,
            final(self).wf(),
            !old(self).accepts(timestamp as int) ==> *final(self) == *old(self),
            old(self).accepts(timestamp as int) ==> final(self).last_price == Some(price)
                && final(self).last_update == Some(timestamp),
            old(self).accepts(timestamp as int) && old(self).last_price is None ==> {
                &&& final(self).gains@ == old(self).gains@
                &&& final(self).losses@ == old(self).losses@
                &&& final(self).avg_gain == old(self).avg_gain
                &&& final(self).avg_loss == old(self).avg_loss
            },
            old(self).last_price matches Some(lp) ==> old(self).accepts(timestamp as int) ==> ({
                let change = price.units - lp.units;
                let gains1 = slide_window(
                    old(self).gains@,
                    dec_of(gain_of(change)),
                    old(self).period as nat,
                );
                let losses1 = slide_window(
                    old(self).losses@,
                    dec_of(loss_of(change)),
                    old(self).period as nat,
                );
                &&& final(self).gains@ == gains1
                &&& final(self).losses@ == losses1
                &&& (gains1.len() == old(self).period ==> {
                    &&& final(self).avg_gain == Some(
                        dec_of(Self::window_avg_units(gains1, old(self).period as int)),
                    )
                    &&& final(self).avg_loss == Some(
                        dec_of(Self::window_avg_units(losses1, old(self).period as int)),
                    )
                })
                &&& (gains1.len() < old(self).period ==> {
                    &&& final(self).avg_gain == old(self).avg_gain
                    &&& final(self).avg_loss == old(self).avg_loss
                })
            }),
    {
        if let Some(last_update) = self.last_update {
            let elapsed: i64 = timestamp - last_update;
            let clamped: i64 = if elapsed < 0 {
                0
            } else {
                elapsed
            };
            if clamped < self.sample_interval as i64 {
                return ;
            }
        }
        let ghost pre = *old(self);

        if let Some(last_price) = self.last_price {
            let change: Dec = price.sub(last_price);
            let zero: Dec = Dec::zero();
            if change.gt(zero) {
                self.gains.push(change);
                self.losses.push(zero);
            } else {
                self.gains.push(zero);
                self.losses.push(change.abs());
            }
            proof {
                let change_i = price.units - last_price.units;
                assert(self.gains@ =~= pre.gains@.push(dec_of(gain_of(change_i))));
                assert(self.losses@ =~= pre.losses@.push(dec_of(loss_of(change_i))));
                lemma_sum_push(pre.gains@, dec_of(gain_of(change_i)));
                lemma_sum_push(pre.losses@, dec_of(loss_of(change_i)));
            }
            if self.gains.len() > self.period {
                proof {
                    lemma_sum_drop_first(self.gains@);
                    lemma_sum_drop_first(self.losses@);
                }
                self.gains.remove(0);
                self.losses.remove(0);
            }
            if self.gains.len() == self.period {
                proof {
                    lemma_nonneg_sum_is_abs(self.gains@);
                    lemma_nonneg_sum_is_abs(self.losses@);
                    lemma_nonneg_each_le_sum(self.gains@);
                    lemma_nonneg_each_le_sum(self.losses@);
                    lemma_avg_window_bounds(self.gains@, self.period as int);
                    lemma_avg_window_bounds(self.losses@, self.period as int);
                }
                let g_sum: Dec = sum_window(&self.gains);
                let l_sum: Dec = sum_window(&self.losses);
                let divisor: Dec = Dec::from_int(self.period as i64);
                self.avg_gain = Some(g_sum.div(divisor));
                self.avg_loss = Some(l_sum.div(divisor));
            }
        }

        self.last_price = Some(price);
        self.last_update = Some(timestamp);
    }

    /// The index value, defined once both averages have been computed:
    /// exactly 100 when the average loss is zero, else
    /// `100 - 100 / (1 + avg_gain / avg_loss)`, always within `[0, 100]`.
    pub fn value(&self) -> (r: Option<Dec>)
        requires
            self.wf(),
        ensures
            r is Some <==> self.avg_gain is Some,
            self.avg_gain matches Some(g) ==> self.avg_loss matches Some(l) ==> {
                &&& (l.units == 0 ==> r->0.units == 100 * SCALE as int)
                &&& (l.units != 0 ==> r->0.units == rsi_units(g.units as int, l.units as int))
            },
            r is Some ==> 0 <= r->0.units <= 100 * SCALE as int,
    {
        match (self.avg_gain, self.avg_loss) {
            (Some(g), Some(l)) => {
                if l.is_zero() {
                    Some(Dec::from_int(100))
                } else {
                    let num: i128 = 100 * SCALE * l.units;
                    let den: i128 = l.units + g.units;
                    proof {
                        assert(num <= (100 * SCALE as int) * den) by (nonlinear_arith)
                            requires
                                num == 100 * (SCALE as int) * l.units,
                                den == l.units + g.units,
                                0 <= g.units,
                                0 < l.units,
                        ;
                        lemma_rdiv_bound_by_multiple(num as int, den as int, 100 * SCALE as int);
                    }
                    let q: i128 = rdiv_exec(num, den);
                    Some(Dec { units: 100 * SCALE - q })
                }
            },
            _ => None,
        }
    }

    /// Replaces the sample interval (milliseconds).
    pub fn set_sample_interval(&mut self, interval_ms: u64)
        requires
            old(self).wf(),
            interval_ms as int <= 9_223_372_036_854_775_807int,
        ensures
            *final(self) == (RSI { sample_interval: interval_ms, ..*old(self) }),
            final(self).wf(),
    {
        self.sample_interval = interval_ms;
    }
}

/// Appending an entry adds its value to both sums.
proof fn lemma_sum_push(s: Seq<Dec>, x: Dec)
    ensures
        sum_units(s.push(x)) == sum_units(s) + x.units,
        sum_abs_units(s.push(x)) == sum_abs_units(s) + abs_int(x.units as int),
{
    assert(s.push(x).drop_last() =~= s);
    assert(s.push(x).last() == x);
}

/// Dropping the first of a non-negative sequence never grows the sum.
proof fn lemma_sum_drop_first(s: Seq<Dec>)
    requires
        s.len() >= 1,
        forall|i: int| 0 <= i < s.len() ==> 0 <= (#[trigger] s[i]).units,
    ensures
        sum_units(s.drop_first()) == sum_units(s) - s[0].units,
        sum_units(s.drop_first()) <= sum_units(s),
    decreases s.len(),
{
    if s.len() == 1 {
        assert(s.drop_first() =~= Seq::<Dec>::empty());
        assert(s.drop_last() =~= Seq::<Dec>::empty());
    } else {
        assert(forall|i: int| 0 <= i < s.drop_last().len() ==> (#[trigger] s.drop_last()[i]) == s[i]);
        lemma_sum_drop_first(s.drop_last());
        assert(s.drop_first().drop_last() =~= s.drop_last().drop_first());
        assert(s.drop_first().last() == s.last());
    }
}

/// Each entry of a non-negative sequence is bounded by the whole sum.
proof fn lemma_nonneg_each_le_sum(s: Seq<Dec>)
    requires
        forall|i: int| 0 <= i < s.len() ==> 0 <= (#[trigger] s[i]).units,
    ensures
        forall|i: int| 0 <= i < s.len() ==> (#[trigger] s[i]).units <= sum_units(s),
    decreases s.len(),
{
    if s.len() > 0 {
        lemma_nonneg_each_le_sum(s.drop_last());
        lemma_nonneg_sum_is_abs(s.drop_last());
        assert forall|i: int| 0 <= i < s.len() implies (#[trigger] s[i]).units <= sum_units(s) by {
            if i < s.len() - 1 {
                assert(s.drop_last()[i] == s[i]);
                assert(s.drop_last()[i].units <= sum_units(s.drop_last()));
            }
        }
    }
}

/// For non-negative entries the sum and the absolute sum agree.
proof fn lemma_nonneg_sum_is_abs(s: Seq<Dec>)
    requires
        forall|i: int| 0 <= i < s.len() ==> 0 <= (#[trigger] s[i]).units,
    ensures
        sum_abs_units(s) == sum_units(s),
        0 <= sum_units(s),
    decreases s.len(),
{
    if s.len() > 0 {
        assert(forall|i: int| 0 <= i < s.drop_last().len() ==> (#[trigger] s.drop_last()[i]) == s[i]);
        lemma_nonneg_sum_is_abs(s.drop_last());
    }
}

/// The mean of a bounded non-negative full window stays bounded.
proof fn lemma_avg_window_bounds(s: Seq<Dec>, period: int)
    requires
        forall|i: int| 0 <= i < s.len() ==> 0 <= (#[trigger] s[i]).units,
        s.len() == period,
        1 <= period <= 9_223_372_036_854_775_807int,
        sum_units(s) <= WINDOW_SUM_LIMIT as int,
    ensures
        0 <= RSI::window_avg_units(s, period) <= WINDOW_SUM_LIMIT as int,
        in_range(RSI::window_avg_units(s, period)),
{
    lemma_nonneg_sum_is_abs(s);
    lemma_div_units_by_whole(sum_units(s), period);
    let d = period * (SCALE as int);
    assert(d >= SCALE as int) by {
        vstd::arithmetic::mul::lemma_mul_inequality(1, period, SCALE as int);
    }
    vstd::arithmetic::div_mod::lemma_div_pos_is_pos(sum_units(s) * (SCALE as int) + d / 2, d);
}

} // verus!
