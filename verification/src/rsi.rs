//! Relative-strength index over a rolling time window of signed price
//! changes.
//!
//! Each distinct price update records a `(gain, timestamp)` and a
//! `(loss, timestamp)` entry; entries older than the window are pruned from
//! the front, and once at least `period` entries remain the average gain and
//! loss are recomputed over all retained entries. Duplicate consecutive
//! prices are ignored entirely, so idle streams do not distort the averages.

use vstd::prelude::*;
use crate::dec::{
    Dec, SCALE, MAX_UNITS, abs_int, in_range, div_units, rdiv, dec_of, rdiv_exec,
    lemma_div_units_by_whole, lemma_rdiv_bound_by_multiple,
};

verus! {

/// Cap on the summed gains (and losses) retained in the window.
pub const WINDOW_SUM_LIMIT: i128 = 1_000_000_000_000_000_000_000_000_000;

/// Cap on the number of retained window entries.
pub const WINDOW_LEN_LIMIT: usize = 1_000_000_000;

/// Gain units recorded for a price change: the change if positive, else zero.
pub open spec fn gain_of(change: int) -> int {
    if change > 0 {
        change
    } else {
        0
    }
}

/// Loss units recorded for a price change: its magnitude if non-positive,
/// else zero.
pub open spec fn loss_of(change: int) -> int {
    if change > 0 {
        0
    } else {
        -change
    }
}

/// Sum of the value units of a stamped-entry sequence.
pub open spec fn entry_sum(s: Seq<(Dec, i64)>) -> int
    decreases s.len(),
{
    if s.len() == 0 {
        0
    } else {
        entry_sum(s.drop_last()) + s.last().0.units
    }
}

/// Every entry holds a non-negative value.
pub open spec fn entries_ok(s: Seq<(Dec, i64)>) -> bool {
    forall|i: int| 0 <= i < s.len() ==> 0 <= (#[trigger] s[i]).0.units
}

/// Removes the longest prefix of entries stamped before `cutoff`.
pub open spec fn prune(s: Seq<(Dec, i64)>, cutoff: int) -> Seq<(Dec, i64)>
    decreases s.len(),
{
    if s.len() > 0 && (s[0].1 as int) < cutoff {
        prune(s.drop_first(), cutoff)
    } else {
        s
    }
}

/// Units of the mean value of a non-empty entry sequence.
pub open spec fn avg_units(s: Seq<(Dec, i64)>) -> int {
    div_units(entry_sum(s), (s.len() as int) * (SCALE as int))
}

/// Units of the index for average gain `g` and average loss `l > 0`:
/// `100 - 100 * l / (l + g)`, rounded once, in whole units of the scale.
pub open spec fn rsi_units(g: int, l: int) -> int {
    100 * (SCALE as int) - rdiv(100 * (SCALE as int) * l, l + g)
}

/// Relative-strength index over a rolling time window.
#[derive(Clone, Debug)]
pub struct RSI {
    /// Minimum number of retained entries before the averages are computed.
    pub period: usize,
    /// Recorded `(gain, timestamp)` entries, oldest first.
    pub gains: Vec<(Dec, i64)>,
    /// Recorded `(loss, timestamp)` entries, oldest first.
    pub losses: Vec<(Dec, i64)>,
    /// Most recent price seen.
    pub last_price: Option<Dec>,
    /// Mean gain over the window at the last recomputation.
    pub avg_gain: Option<Dec>,
    /// Mean loss over the window at the last recomputation.
    pub avg_loss: Option<Dec>,
    /// Timestamp of the most recent accepted update (milliseconds).
    pub last_update: Option<i64>,
    /// Rolling window length in milliseconds.
    pub window_duration: u64,
}

impl RSI {
    /// Structural invariant: paired queues with equal timestamps, bounded
    /// non-negative sums, and averages that are set together and bounded.
    pub open spec fn wf(self) -> bool {
        &&& self.window_duration as int <= 9_223_372_036_854_775_807int
        &&& entries_ok(self.gains@)
        &&& entries_ok(self.losses@)
        &&& entry_sum(self.gains@) <= WINDOW_SUM_LIMIT as int
        &&& entry_sum(self.losses@) <= WINDOW_SUM_LIMIT as int
        &&& self.gains@.len() == self.losses@.len()
        &&& self.gains@.len() <= WINDOW_LEN_LIMIT as int
        &&& (forall|i: int|
            0 <= i < self.gains@.len() ==> (#[trigger] self.gains@[i]).1 == self.losses@[i].1)
        &&& (self.avg_gain is Some <==> self.avg_loss is Some)
        &&& (self.avg_gain matches Some(g) ==> 0 <= g.units <= WINDOW_SUM_LIMIT as int)
        &&& (self.avg_loss matches Some(l) ==> 0 <= l.units <= WINDOW_SUM_LIMIT as int)
        &&& (self.last_price matches Some(p) ==> p.wf())
    }

    /// Creates an index needing `period` samples, with the default 180 s
    /// rolling window.
    pub fn new(period: usize) -> (r: RSI)
        ensures
            r.period == period,
            r.gains@.len() == 0,
            r.losses@.len() == 0,
            r.last_price is None,
            r.avg_gain is None,
            r.avg_loss is None,
            r.last_update is None,
            r.window_duration == 180_000u64,
            r.wf(),
    {
        RSI {
            period,
            gains: Vec::new(),
            losses: Vec::new(),
            last_price: None,
            avg_gain: None,
            avg_loss: None,
            last_update: None,
            window_duration: 180_000,
        }
    }

    /// Records a price observation at `timestamp` (milliseconds).
    ///
    /// The first price is only stored. A price equal to the previous one is
    /// ignored entirely. Otherwise the signed change is appended to both
    /// queues, entries older than the window are pruned, and once at least
    /// `period` entries remain both averages are recomputed over every
    /// retained entry.
    pub fn update_with_time(&mut self, price: Dec, timestamp: i64)
        requires
            old(self).wf(),
            price.wf(),
            timestamp >= 0,
            old(self).gains@.len() < WINDOW_LEN_LIMIT as int,
            old(self).last_price matches Some(lp) ==> lp != price ==> {
                &&& in_range(price.units - lp.units)
                &&& entry_sum(old(self).gains@) + abs_int(price.units - lp.units)
                    <= WINDOW_SUM_LIMIT as int
                &&& entry_sum(old(self).losses@) + abs_int(price.units - lp.units)
                    <= WINDOW_SUM_LIMIT as int
            },
        ensures
            final(self).period == old(self).period,
            final(self).window_duration == old(self).window_duration,
            final(self).wf(),
            rsi_step_rel(*old(self), *final(self), price, timestamp),
            old(self).last_price is None ==> {
                &&& final(self).gains@ == old(self).gains@
                &&& final(self).losses@ == old(self).losses@
                &&& final(self).avg_gain == old(self).avg_gain
                &&& final(self).avg_loss == old(self).avg_loss
                &&& final(self).last_price == Some(price)
                &&& final(self).last_update == Some(timestamp)
            },
            old(self).last_price matches Some(lp) ==> lp == price ==> {
                &&& final(self).gains@ == old(self).gains@
                &&& final(self).losses@ == old(self).losses@
                &&& final(self).avg_gain == old(self).avg_gain
                &&& final(self).avg_loss == old(self).avg_loss
                &&& final(self).last_price == old(self).last_price
                &&& final(self).last_update == old(self).last_update
            },
            old(self).last_price matches Some(lp) ==> lp != price ==> ({
                let change = price.units - lp.units;
                let cutoff = timestamp - old(self).window_duration as int;
                let gains1 = prune(
                    old(self).gains@.push((dec_of(gain_of(change)), timestamp)),
                    cutoff,
                );
                let losses1 = prune(
                    old(self).losses@.push((dec_of(loss_of(change)), timestamp)),
                    cutoff,
                );
                &&& final(self).gains@ == gains1
                &&& final(self).losses@ == losses1
                &&& final(self).last_price == Some(price)
                &&& final(self).last_update == Some(timestamp)
                &&& (gains1.len() >= old(self).period ==> {
                    &&& final(self).avg_gain == Some(dec_of(avg_units(gains1)))
                    &&& final(self).avg_loss == Some(dec_of(avg_units(losses1)))
                })
                &&& (gains1.len() < old(self).period ==> {
                    &&& final(self).avg_gain == old(self).avg_gain
                    &&& final(self).avg_loss == old(self).avg_loss
                })
            }),
    {
        let ghost pre = *old(self);
        if let Some(lp) = self.last_price {
            if lp == price {
                return ;
            }
            let change: Dec = price.sub(lp);
            let zero: Dec = Dec::zero();
            if change.gt(zero) {
                self.gains.push((change, timestamp));
                self.losses.push((zero, timestamp));
            } else {
                self.gains.push((zero, timestamp));
                self.losses.push((change.abs(), timestamp));
            }
            proof {
                let change_i = price.units - lp.units;
                assert(self.gains@ =~= pre.gains@.push((dec_of(gain_of(change_i)), timestamp)));
                assert(self.losses@ =~= pre.losses@.push((dec_of(loss_of(change_i)), timestamp)));
                lemma_entry_sum_push(pre.gains@, (dec_of(gain_of(change_i)), timestamp));
                lemma_entry_sum_push(pre.losses@, (dec_of(loss_of(change_i)), timestamp));
            }
            let cutoff: i64 = timestamp - (self.window_duration as i64);
            prune_front(&mut self.gains, cutoff);
            prune_front(&mut self.losses, cutoff);
            proof {
                let change_i = price.units - lp.units;
                let pushed_g = pre.gains@.push((dec_of(gain_of(change_i)), timestamp));
                let pushed_l = pre.losses@.push((dec_of(loss_of(change_i)), timestamp));
                assert(entries_ok(pushed_g));
                assert(entries_ok(pushed_l));
                lemma_prune_props(pushed_g, cutoff as int);
                lemma_prune_props(pushed_l, cutoff as int);
                lemma_prune_parallel(pushed_g, pushed_l, cutoff as int);
                lemma_prune_keeps_recent(pushed_g, cutoff as int);
                lemma_prune_keeps_recent(pushed_l, cutoff as int);
            }
            if self.gains.len() >= self.period {
                let g_sum: Dec = sum_entries(&self.gains);
                let l_sum: Dec = sum_entries(&self.losses);
                proof {
                    lemma_avg_bounds(self.gains@);
                    lemma_avg_bounds(self.losses@);
                }
                let g_len: i64 = self.gains.len() as i64;
                let l_len: i64 = self.losses.len() as i64;
                self.avg_gain = Some(g_sum.div(Dec::from_int(g_len)));
                self.avg_loss = Some(l_sum.div(Dec::from_int(l_len)));
            }
        }
        self.last_price = Some(price);
        self.last_update = Some(timestamp);
    }

    /// The index value, defined once both averages have been computed:
    /// exactly 100 when the average loss is zero, else
    /// `100 - 100 / (1 + avg_gain / avg_loss)`, always within `[0, 100]`.
    pub fn value(&self) -> (r: Option<Dec>)
        requires
            self.wf(),
        ensures
            r is Some <==> self.avg_gain is Some,
            self.avg_gain matches Some(g) ==> self.avg_loss matches Some(l) ==> {
                &&& (l.units == 0 ==> r->0.units == 100 * SCALE as int)
                &&& (l.units != 0 ==> r->0.units == rsi_units(g.units as int, l.units as int))
            },
            r is Some ==> 0 <= r->0.units <= 100 * SCALE as int,
    {
        match (self.avg_gain, self.avg_loss) {
            (Some(g), Some(l)) => {
                if l.is_zero() {
                    Some(Dec::from_int(100))
                } else {
                    let num: i128 = 100 * SCALE * l.units;
                    let den: i128 = l.units + g.units;
                    proof {
                        assert(num <= (100 * SCALE as int) * den) by (nonlinear_arith)
                            requires
                                num == 100 * (SCALE as int) * l.units,
                                den == l.units + g.units,
                                0 <= g.units,
                                0 < l.units,
                        ;
                        lemma_rdiv_bound_by_multiple(num as int, den as int, 100 * SCALE as int);
                    }
                    let q: i128 = rdiv_exec(num, den);
                    Some(Dec { units: 100 * SCALE - q })
                }
            },
            _ => None,
        }
    }

    /// Replaces the rolling window length (milliseconds).
    pub fn set_window(&mut self, interval_ms: u64)
        requires
            old(self).wf(),
            interval_ms as int <= 9_223_372_036_854_775_807int,
        ensures
            *final(self) == (RSI { window_duration: interval_ms, ..*old(self) }),
            final(self).wf(),
    {
        self.window_duration = interval_ms;
    }
}

/// How one accepted observation `(price, timestamp)` relates the index
/// state after the update to the state before it: the first price is only
/// stored, a duplicate changes nothing, and otherwise the change is
/// recorded, old entries pruned, and the averages recomputed once at least
/// `period` entries remain.
pub open spec fn rsi_step_rel(pre: RSI, post: RSI, price: Dec, timestamp: i64) -> bool {
    &&& post.period == pre.period
    &&& post.window_duration == pre.window_duration
    &&& (pre.last_price is None ==> {
        &&& post.gains@ == pre.gains@
        &&& post.losses@ == pre.losses@
        &&& post.avg_gain == pre.avg_gain
        &&& post.avg_loss == pre.avg_loss
        &&& post.last_price == Some(price)
        &&& post.last_update == Some(timestamp)
    })
    &&& (pre.last_price matches Some(lp) ==> lp == price ==> {
        &&& post.gains@ == pre.gains@
        &&& post.losses@ == pre.losses@
        &&& post.avg_gain == pre.avg_gain
        &&& post.avg_loss == pre.avg_loss
        &&& post.last_price == pre.last_price
        &&& post.last_update == pre.last_update
    })
    &&& (pre.last_price matches Some(lp) ==> lp != price ==> ({
        let change = price.units - lp.units;
        let cutoff = timestamp - pre.window_duration as int;
        let gains1 = prune(pre.gains@.push((dec_of(gain_of(change)), timestamp)), cutoff);
        let losses1 = prune(pre.losses@.push((dec_of(loss_of(change)), timestamp)), cutoff);
        &&& post.gains@ == gains1
        &&& post.losses@ == losses1
        &&& post.last_price == Some(price)
        &&& post.last_update == Some(timestamp)
        &&& (gains1.len() >= pre.period ==> {
            &&& post.avg_gain == Some(dec_of(avg_units(gains1)))
            &&& post.avg_loss == Some(dec_of(avg_units(losses1)))
        })
        &&& (gains1.len() < pre.period ==> {
            &&& post.avg_gain == pre.avg_gain
            &&& post.avg_loss == pre.avg_loss
        })
    }))
}

/// What an update needs of the state: room in the queues and sums that stay
/// in range when the change is recorded.
pub open spec fn rsi_update_ok(pre: RSI, price: Dec, timestamp: i64) -> bool {
    &&& timestamp >= 0
    &&& pre.gains@.len() < WINDOW_LEN_LIMIT as int
    &&& (pre.last_price matches Some(lp) ==> lp != price ==> {
        &&& in_range(price.units - lp.units)
        &&& entry_sum(pre.gains@) + abs_int(price.units - lp.units) <= WINDOW_SUM_LIMIT as int
        &&& entry_sum(pre.losses@) + abs_int(price.units - lp.units) <= WINDOW_SUM_LIMIT as int
    })
}

/// A window of all-zero entries averages to exactly zero, so an index whose
/// retained losses are all zero reports the maximal value 100.
pub proof fn lemma_zero_entries_avg_zero(s: Seq<(Dec, i64)>)
    requires
        s.len() >= 1,
        forall|i: int| 0 <= i < s.len() ==> (#[trigger] s[i]).0.units == 0,
    ensures
        avg_units(s) == 0,
{
    lemma_all_zero_sum(s);
    let d = (s.len() as int) * (SCALE as int);
    assert(d >= SCALE as int) by {
        vstd::arithmetic::mul::lemma_mul_inequality(1, s.len() as int, SCALE as int);
    }
    assert((0 + d / 2) / d == 0) by {
        vstd::arithmetic::div_mod::lemma_basic_div(d / 2, d);
    }
}

/// An all-zero entry sequence sums to zero.
proof fn lemma_all_zero_sum(s: Seq<(Dec, i64)>)
    requires
        forall|i: int| 0 <= i < s.len() ==> (#[trigger] s[i]).0.units == 0,
    ensures
        entry_sum(s) == 0,
    decreases s.len(),
{
    if s.len() > 0 {
        lemma_all_zero_sum(s.drop_last());
    }
}

/// Appending an entry adds its value to the sum.
proof fn lemma_entry_sum_push(s: Seq<(Dec, i64)>, e: (Dec, i64))
    ensures
        entry_sum(s.push(e)) == entry_sum(s) + e.0.units,
{
    assert(s.push(e).drop_last() =~= s);
    assert(s.push(e).last() == e);
}

/// Extending a prefix by one entry adds that entry to its sum.
proof fn lemma_entry_sum_take_step(s: Seq<(Dec, i64)>, i: int)
    requires
        0 <= i < s.len(),
    ensures
        entry_sum(s.take(i + 1)) == entry_sum(s.take(i)) + s[i].0.units,
{
    assert(s.take(i + 1).drop_last() =~= s.take(i));
    assert(s.take(i + 1).last() == s[i]);
}

/// A non-negative sequence has a non-negative sum.
proof fn lemma_entry_sum_nonneg(s: Seq<(Dec, i64)>)
    requires
        entries_ok(s),
    ensures
        0 <= entry_sum(s),
    decreases s.len(),
{
    if s.len() > 0 {
        assert(entries_ok(s.drop_last()));
        lemma_entry_sum_nonneg(s.drop_last());
    }
}

/// Partial sums of a non-negative sequence stay within the total.
proof fn lemma_entry_sum_take_le(s: Seq<(Dec, i64)>, i: int)
    requires
        entries_ok(s),
        0 <= i <= s.len(),
    ensures
        0 <= entry_sum(s.take(i)) <= entry_sum(s),
    decreases s.len() - i,
{
    assert(entries_ok(s.take(i)));
    lemma_entry_sum_nonneg(s.take(i));
    if i < s.len() {
        lemma_entry_sum_take_step(s, i);
        lemma_entry_sum_take_le(s, i + 1);
    } else {
        assert(s.take(i) =~= s);
    }
}

/// Dropping the first entry removes exactly its value from the sum.
proof fn lemma_entry_sum_drop_first(s: Seq<(Dec, i64)>)
    requires
        s.len() >= 1,
    ensures
        entry_sum(s.drop_first()) == entry_sum(s) - s[0].0.units,
    decreases s.len(),
{
    if s.len() == 1 {
        assert(s.drop_first() =~= Seq::<(Dec, i64)>::empty());
        assert(s.drop_last() =~= Seq::<(Dec, i64)>::empty());
    } else {
        lemma_entry_sum_drop_first(s.drop_last());
        assert(s.drop_first().drop_last() =~= s.drop_last().drop_first());
        assert(s.drop_first().last() == s.last());
    }
}

/// Pruning keeps entries non-negative and never grows length or sum.
proof fn lemma_prune_props(s: Seq<(Dec, i64)>, cutoff: int)
    requires
        entries_ok(s),
    ensures
        entries_ok(prune(s, cutoff)),
        prune(s, cutoff).len() <= s.len(),
        entry_sum(prune(s, cutoff)) <= entry_sum(s),
        0 <= entry_sum(prune(s, cutoff)),
    decreases s.len(),
{
    if s.len() > 0 && (s[0].1 as int) < cutoff {
        lemma_entry_sum_drop_first(s);
        assert(entries_ok(s.drop_first()));
        lemma_prune_props(s.drop_first(), cutoff);
    } else {
        lemma_entry_sum_take_le(s, s.len() as int);
        assert(s.take(s.len() as int) =~= s);
    }
}

/// An entry stamped at or after the cutoff keeps the pruned window
/// non-empty: the freshly pushed entry always survives.
proof fn lemma_prune_keeps_recent(s: Seq<(Dec, i64)>, cutoff: int)
    requires
        s.len() >= 1,
        s.last().1 >= cutoff,
    ensures
        prune(s, cutoff).len() >= 1,
    decreases s.len(),
{
    if s.len() > 0 && (s[0].1 as int) < cutoff {
        assert(s.drop_first().last() == s.last());
        lemma_prune_keeps_recent(s.drop_first(), cutoff);
    }
}

/// Pruning two sequences with pointwise-equal timestamps removes the same
/// number of entries and keeps the timestamps pointwise equal.
proof fn lemma_prune_parallel(a: Seq<(Dec, i64)>, b: Seq<(Dec, i64)>, cutoff: int)
    requires
        a.len() == b.len(),
        forall|i: int| 0 <= i < a.len() ==> (#[trigger] a[i]).1 == b[i].1,
    ensures
        prune(a, cutoff).len() == prune(b, cutoff).len(),
        forall|i: int|
            0 <= i < prune(a, cutoff).len() ==> (#[trigger] prune(a, cutoff)[i]).1 == prune(
                b,
                cutoff,
            )[i].1,
    decreases a.len(),
{
    if a.len() > 0 && (a[0].1 as int) < cutoff {
        assert(forall|i: int|
            0 <= i < a.drop_first().len() ==> (#[trigger] a.drop_first()[i]).1
                == b.drop_first()[i].1);
        lemma_prune_parallel(a.drop_first(), b.drop_first(), cutoff);
    }
}

/// The mean of a bounded non-negative window lies between zero and its sum.
proof fn lemma_avg_bounds(s: Seq<(Dec, i64)>)
    requires
        entries_ok(s),
        1 <= s.len() <= WINDOW_LEN_LIMIT as int,
        entry_sum(s) <= WINDOW_SUM_LIMIT as int,
    ensures
        0 <= avg_units(s) <= entry_sum(s),
        in_range(avg_units(s)),
    decreases 0int,
{
    lemma_entry_sum_take_le(s, s.len() as int);
    assert(s.take(s.len() as int) =~= s);
    lemma_div_units_by_whole(entry_sum(s), s.len() as int);
    let d = (s.len() as int) * (SCALE as int);
    assert(d >= SCALE as int) by {
        vstd::arithmetic::mul::lemma_mul_inequality(1, s.len() as int, SCALE as int);
    }
    assert(avg_units(s) == rdiv(entry_sum(s) * (SCALE as int), d));
    vstd::arithmetic::div_mod::lemma_div_pos_is_pos(entry_sum(s) * (SCALE as int) + d / 2, d);
}

/// Removes the run of entries at the front stamped before `cutoff`.
fn prune_front(q: &mut Vec<(Dec, i64)>, cutoff: i64)
    ensures
        final(q)@ == prune(old(q)@, cutoff as int),
{
    while q.len() > 0 && q[0].1 < cutoff
        invariant
            prune(q@, cutoff as int) == prune(old(q)@, cutoff as int),
        decreases q@.len(),
    {
        q.remove(0);
    }
}

/// Sums the values of a bounded non-negative entry window.
fn sum_entries(q: &Vec<(Dec, i64)>) -> (r: Dec)
    requires
        entries_ok(q@),
        entry_sum(q@) <= WINDOW_SUM_LIMIT as int,
    ensures
        r.units == entry_sum(q@),
        0 <= r.units <= WINDOW_SUM_LIMIT,
        r.wf(),
{
    let mut sum: i128 = 0;
    let mut i: usize = 0;
    proof {
        assert(q@.take(0) =~= Seq::<(Dec, i64)>::empty());
        lemma_entry_sum_take_le(q@, 0);
    }
    while i < q.len()
        invariant
            0 <= i <= q@.len(),
            entries_ok(q@),
            entry_sum(q@) <= WINDOW_SUM_LIMIT as int,
            sum == entry_sum(q@.take(i as int)),
            0 <= sum <= entry_sum(q@),
        decreases q@.len() - i,
    {
        proof {
            lemma_entry_sum_take_step(q@, i as int);
            lemma_entry_sum_take_le(q@, i as int + 1);
        }
        sum = sum + q[i].0.units;
        i = i + 1;
    }
    proof {
        assert(q@.take(q@.len() as int) =~= q@);
    }
    Dec { units: sum }
}

} // verus!
