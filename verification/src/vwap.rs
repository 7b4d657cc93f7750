//! Volume-weighted average price over a periodically reset accumulation
//! window.
//!
//! Trades accumulate `price * volume` and `volume`; the value is their
//! quotient once any volume has accumulated. When an update arrives after
//! `reset_period` has elapsed since the last reset (or on the first update),
//! all accumulators restart from zero before the trade is applied.

use vstd::prelude::*;
use crate::dec::{
    Dec, SCALE, MAX_UNITS, abs_int, in_range, mul_units, div_units, rdiv, dec_of,
    lemma_rdiv_bound_by_multiple,
};

verus! {

/// Volume-weighted average price with periodic resets.
#[derive(Clone, Debug)]
pub struct VwapIndicator {
    /// Accumulated `price * volume` since the last reset.
    pub price_volume_sum: Dec,
    /// Accumulated volume since the last reset.
    pub volume_sum: Dec,
    /// Number of trades accumulated since the last reset.
    pub trade_count: usize,
    /// Window length in milliseconds after which accumulation restarts.
    pub reset_period: u64,
    /// Timestamp of the last reset (milliseconds), if any update arrived.
    pub last_reset: Option<i64>,
    /// Current quotient, defined once volume has accumulated.
    pub current_vwap: Option<Dec>,
}

impl VwapIndicator {
    /// Whether an update at `ts` restarts the accumulation window: always on
    /// the first update, and whenever the non-negative elapsed time since the
    /// last reset reaches the reset period.
    pub open spec fn should_reset_at(self, ts: int) -> bool {
        match self.last_reset {
            None => true,
            Some(lr) => (if ts - lr >= 0 {
                ts - lr
            } else {
                0
            }) >= self.reset_period,
        }
    }

    /// Structural invariant: bounded accumulators, a representable reset
    /// period, and a non-negative reset timestamp.
    pub open spec fn wf(self) -> bool {
        &&& self.price_volume_sum.wf()
        &&& self.volume_sum.wf()
        &&& self.reset_period as int <= 9_223_372_036_854_775_807int
        &&& (self.last_reset matches Some(lr) ==> lr >= 0)
        &&& (self.current_vwap matches Some(v) ==> v.wf())
    }

    /// All bounds an update at these arguments needs: the trade's notional
    /// stays multipliable, the accumulators stay in range, the trade count
    /// does not overflow, and the new quotient (if defined) is in range.
    pub open spec fn update_ok(self, price: Dec, volume: Dec, ts: int) -> bool {
        let rc = self.should_reset_at(ts);
        let pv0 = if rc {
            0int
        } else {
            self.price_volume_sum.units as int
        };
        let v0 = if rc {
            0int
        } else {
            self.volume_sum.units as int
        };
        let pv1 = pv0 + mul_units(price.units as int, volume.units as int);
        let v1 = v0 + volume.units;
        &&& abs_int(price.units * volume.units) <= MAX_UNITS as int * SCALE as int
        &&& in_range(pv1)
        &&& in_range(v1)
        &&& (!rc ==> self.trade_count < usize::MAX)
        &&& (v1 > 0 ==> in_range(div_units(pv1, v1)))
    }

    /// The indicator state after applying one trade at `ts`.
    pub open spec fn step(self, price: Dec, volume: Dec, ts: int) -> VwapIndicator {
        let rc = self.should_reset_at(ts);
        let pv0 = if rc {
            0int
        } else {
            self.price_volume_sum.units as int
        };
        let v0 = if rc {
            0int
        } else {
            self.volume_sum.units as int
        };
        let c0 = if rc {
            0int
        } else {
            self.trade_count as int
        };
        let vw0 = if rc {
            None
        } else {
            self.current_vwap
        };
        let pv1 = pv0 + mul_units(price.units as int, volume.units as int);
        let v1 = v0 + volume.units;
        VwapIndicator {
            price_volume_sum: dec_of(pv1),
            volume_sum: dec_of(v1),
            trade_count: (c0 + 1) as usize,
            reset_period: self.reset_period,
            last_reset: Some(
                (if rc {
                    ts
                } else {
                    self.last_reset->0 as int
                }) as i64,
            ),
            current_vwap: if v1 > 0 {
                Some(dec_of(div_units(pv1, v1)))
            } else {
                vw0
            },
        }
    }

    /// Creates an indicator that resets every `reset_period_ms` milliseconds.
    pub fn new(reset_period_ms: u64) -> (r: VwapIndicator)
        requires
            reset_period_ms as int <= 9_223_372_036_854_775_807int,
        ensures
            r.price_volume_sum.units == 0,
            r.volume_sum.units == 0,
            r.trade_count == 0,
            r.reset_period == reset_period_ms,
            r.last_reset is None,
            r.current_vwap is None,
            r.wf(),
    {
        VwapIndicator {
            price_volume_sum: Dec::zero(),
            volume_sum: Dec::zero(),
            trade_count: 0,
            reset_period: reset_period_ms,
            last_reset: None,
            current_vwap: None,
        }
    }

    /// A daily indicator: accumulation restarts every 24 hours.
    pub fn daily() -> (r: VwapIndicator)
        ensures
            r.reset_period == 86_400_000u64,
            r.price_volume_sum.units == 0,
            r.volume_sum.units == 0,
            r.trade_count == 0,
            r.last_reset is None,
            r.current_vwap is None,
            r.wf(),
    {
        VwapIndicator::new(86_400_000)
    }

    /// Applies one trade at `timestamp` (milliseconds): restarts the window
    /// if due, accumulates the trade, and recomputes the quotient when any
    /// volume has accumulated.
    pub fn update(&mut self, price: Dec, volume: Dec, timestamp: i64)
        requires
            old(self).wf(),
            price.wf(),
            volume.wf(),
            timestamp >= 0,
            old(self).update_ok(price, volume, timestamp as int),
        ensures
            *final(self) == old(self).step(price, volume, timestamp as int),
            final(self).wf(),
    {
        if self.should_reset(timestamp) {
            self.reset(timestamp);
        }
        let notional: Dec = price.mul(volume);
        self.price_volume_sum = self.price_volume_sum.add(notional);
        self.volume_sum = self.volume_sum.add(volume);
        self.trade_count = self.trade_count + 1;
        if self.volume_sum.gt(Dec::zero()) {
            self.current_vwap = Some(self.price_volume_sum.div(self.volume_sum));
        }
    }

    /// The current volume-weighted average price, or `None` when no trade
    /// has accumulated since the last reset.
    pub fn value(&self) -> (r: Option<Dec>)
        requires
            self.wf(),
        ensures
            r == self.current_vwap,
            r matches Some(v) ==> v.wf(),
    {
        self.current_vwap
    }

    /// Total volume accumulated since the last reset.
    pub fn total_volume(&self) -> (r: Dec)
        ensures
            r == self.volume_sum,
    {
        self.volume_sum
    }

    /// Number of trades accumulated since the last reset.
    pub fn trade_count(&self) -> (r: usize)
        ensures
            r == self.trade_count,
    {
        self.trade_count
    }

    /// Replaces the reset period (milliseconds).
    pub fn set_reset_period(&mut self, period_ms: u64)
        requires
            old(self).wf(),
            period_ms as int <= 9_223_372_036_854_775_807int,
        ensures
            *final(self) == (VwapIndicator { reset_period: period_ms, ..*old(self) }),
            final(self).wf(),
    {
        self.reset_period = period_ms;
    }

    /// Whether an update at `timestamp` must restart the window.
    fn should_reset(&self, timestamp: i64) -> (r: bool)
        requires
            self.wf(),
            timestamp >= 0,
        ensures
            r == self.should_reset_at(timestamp as int),
    {
        match self.last_reset {
            None => true,
            Some(lr) => {
                let elapsed: i64 = timestamp - lr;
                let clamped: i64 = if elapsed < 0 {
                    0
                } else {
                    elapsed
                };
                clamped >= self.reset_period as i64
            },
        }
    }

    /// Clears every accumulator and restarts the window at `timestamp`.
    fn reset(&mut self, timestamp: i64)
        requires
            timestamp >= 0,
        ensures
            final(self).price_volume_sum.units == 0,
            final(self).volume_sum.units == 0,
            final(self).trade_count == 0,
            final(self).current_vwap is None,
            final(self).last_reset == Some(timestamp),
            final(self).reset_period == old(self).reset_period,
    {
        self.price_volume_sum = Dec::zero();
        self.volume_sum = Dec::zero();
        self.trade_count = 0;
        self.current_vwap = None;
        self.last_reset = Some(timestamp);
    }
}

/// Two trades into a fresh window yield exactly
/// `(p1*v1 + p2*v2) / (v1 + v2)` in the library's decimal arithmetic,
/// provided the second update does not itself restart the window.
pub proof fn lemma_vwap_two_updates(
    s0: VwapIndicator,
    p1: Dec,
    v1: Dec,
    t1: int,
    p2: Dec,
    v2: Dec,
    t2: int,
)
    requires
        s0.should_reset_at(t1),
        s0.update_ok(p1, v1, t1),
        s0.step(p1, v1, t1).update_ok(p2, v2, t2),
        !s0.step(p1, v1, t1).should_reset_at(t2),
        mul_units(p1.units as int, v1.units as int) + mul_units(p2.units as int, v2.units as int)
            > 0 || v1.units + v2.units > 0,
    ensures
        v1.units + v2.units > 0 ==> s0.step(p1, v1, t1).step(p2, v2, t2).current_vwap == Some(
            dec_of(
                div_units(
                    mul_units(p1.units as int, v1.units as int) + mul_units(
                        p2.units as int,
                        v2.units as int,
                    ),
                    v1.units + v2.units,
                ),
            ),
        ),
        s0.step(p1, v1, t1).step(p2, v2, t2).volume_sum.units == v1.units + v2.units,
{
}

/// An update that restarts the window discards all prior accumulation: the
/// resulting value is exactly the new trade's price whenever the trade's
/// notional is exact at the library's scale (`p * v` leaves no remainder)
/// and its volume is positive.
pub proof fn lemma_vwap_reset_restart(s: VwapIndicator, p: Dec, v: Dec, t: int)
    requires
        s.should_reset_at(t),
        s.update_ok(p, v, t),
        v.units > 0,
        (p.units * v.units) % (SCALE as int) == 0,
    ensures
        s.step(p, v, t).current_vwap == Some(p),
        s.step(p, v, t).volume_sum == v,
        s.step(p, v, t).price_volume_sum.units == mul_units(p.units as int, v.units as int),
{
    let sc = SCALE as int;
    let prod = p.units * v.units;
    let m = prod / sc;
    assert(prod == m * sc) by {
        vstd::arithmetic::div_mod::lemma_fundamental_div_mod(prod, sc);
        vstd::arithmetic::mul::lemma_mul_is_commutative(sc, m);
    }
    assert(mul_units(p.units as int, v.units as int) == m) by {
        if prod >= 0 {
            assert((prod + sc / 2) / sc == m) by {
                vstd::arithmetic::div_mod::lemma_fundamental_div_mod_converse_div(
                    prod + sc / 2,
                    sc,
                    m,
                    sc / 2,
                );
            }
        } else {
            assert(-prod == (-m) * sc) by {
                vstd::arithmetic::mul::lemma_mul_unary_negation(m, sc);
            }
            assert((-prod + sc / 2) / sc == -m) by {
                vstd::arithmetic::div_mod::lemma_fundamental_div_mod_converse_div(
                    -prod + sc / 2,
                    sc,
                    -m,
                    sc / 2,
                );
            }
        }
    }
    assert(div_units(m, v.units as int) == p.units) by {
        lemma_exact_quotient(m, p.units as int, v.units as int);
    }
}

/// If `m * SCALE == p * v` exactly, then `m / v` recovers `p` at scale.
proof fn lemma_exact_quotient(m: int, p: int, v: int)
    requires
        v > 0,
        m * (SCALE as int) == p * v,
    ensures
        div_units(m, v) == p,
{
    let n = m * (SCALE as int);
    if n >= 0 {
        assert(p >= 0) by {
            if p < 0 {
                assert(p * v <= (-1) * v) by {
                    vstd::arithmetic::mul::lemma_mul_inequality(p, -1, v);
                }
            }
        }
        assert((n + v / 2) / v == p) by {
            vstd::arithmetic::div_mod::lemma_fundamental_div_mod_converse_div(
                n + v / 2,
                v,
                p,
                v / 2,
            );
        }
    } else {
        assert(p < 0) by {
            if p >= 0 {
                assert(p * v >= 0) by {
                    vstd::arithmetic::mul::lemma_mul_nonnegative(p, v);
                }
            }
        }
        assert((-n + v / 2) / v == -p) by {
            assert(-n == (-p) * v) by {
                vstd::arithmetic::mul::lemma_mul_unary_negation(p, v);
            }
            vstd::arithmetic::div_mod::lemma_fundamental_div_mod_converse_div(
                -n + v / 2,
                v,
                -p,
                v / 2,
            );
        }
    }
}

} // verus!
