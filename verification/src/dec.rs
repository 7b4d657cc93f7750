//! Exact base-10 fixed-point decimal arithmetic.
//!
//! A [`Dec`] holds an integer count of billionths (scale 10^-9), so every
//! price, quantity and accumulator in the library is a plain integer to the
//! verifier. Multiplication and division round half away from zero at the
//! ninth decimal place; [`Dec::round_dp8`] rounds to the eighth with ties
//! to even, as order quantities require.

use vstd::prelude::*;

verus! {

/// Units per whole: a `Dec` with `units == SCALE` has the value one.
pub const SCALE: i128 = 1_000_000_000;

/// Magnitude bound kept by every well-formed `Dec` (10^28 units).
pub const MAX_UNITS: i128 = 10_000_000_000_000_000_000_000_000_000;

/// Absolute value of a mathematical integer.
pub open spec fn abs_int(n: int) -> int {
    if n >= 0 {
        n
    } else {
        -n
    }
}

/// Quotient of `n / d` rounded half away from zero, for `d > 0`.
pub open spec fn rdiv(n: int, d: int) -> int
    recommends
        d > 0,
{
    if n >= 0 {
        (n + d / 2) / d
    } else {
        -((-n + d / 2) / d)
    }
}

/// Units of the product of two `Dec` values (one rounding at scale 9).
pub open spec fn mul_units(a: int, b: int) -> int {
    rdiv(a * b, SCALE as int)
}

/// Units of the quotient of two `Dec` values (one rounding at scale 9).
pub open spec fn div_units(a: int, b: int) -> int
    recommends
        b != 0,
{
    if b >= 0 {
        rdiv(a * (SCALE as int), b)
    } else {
        rdiv(-(a * (SCALE as int)), -b)
    }
}

/// Whether a unit count lies within the range every `Dec` keeps.
pub open spec fn in_range(u: int) -> bool {
    -(MAX_UNITS as int) <= u <= MAX_UNITS as int
}

/// `n >= 0` rounded to a multiple of ten, ties to the even multiple.
pub open spec fn round10_half_even_pos(n: int) -> int {
    let q = n / 10;
    let r = n % 10;
    if r < 5 {
        q * 10
    } else if r > 5 {
        (q + 1) * 10
    } else if q % 2 == 0 {
        q * 10
    } else {
        (q + 1) * 10
    }
}

/// `n` rounded to the nearest multiple of ten, ties to the even multiple
/// (banker's rounding at the eighth decimal place).
pub open spec fn round10_half_even(n: int) -> int {
    if n >= 0 {
        round10_half_even_pos(n)
    } else {
        -round10_half_even_pos(-n)
    }
}

/// Fixed-point decimal: the represented value is `units / SCALE`.
#[derive(Clone, Copy, Debug, PartialEq, Eq, Structural)]
pub struct Dec {
    pub units: i128,
}

/// Quotient rounded half away from zero, computed on machine integers.
pub(crate) fn rdiv_exec(n: i128, d: i128) -> (r: i128)
    requires
        0 < d <= MAX_UNITS as int,
        abs_int(n as int) <= 160_000_000_000_000_000_000_000_000_000_000_000_000int,
    ensures
        r == rdiv(n as int, d as int),
{
    if n >= 0 {
        (n + d / 2) / d
    } else {
        proof {
            vstd::arithmetic::div_mod::lemma_div_pos_is_pos(-(n as int) + d / 2, d as int);
        }
        -((-n + d / 2) / d)
    }
}

impl Dec {
    /// Whether this value lies within the library's decimal range.
    pub open spec fn wf(self) -> bool {
        in_range(self.units as int)
    }

    /// The zero value.
    pub fn zero() -> (r: Dec)
        ensures
            r.units == 0,
            r.wf(),
    {
        Dec { units: 0 }
    }

    /// Builds a value from a raw count of billionths.
    pub fn from_units(units: i128) -> (r: Dec)
        requires
            in_range(units as int),
        ensures
            r.units == units,
            r.wf(),
    {
        Dec { units }
    }

    /// Builds a whole-number value.
    pub fn from_int(n: i64) -> (r: Dec)
        ensures
            r.units == n * SCALE,
            r.wf(),
    {
        Dec { units: (n as i128) * SCALE }
    }

    /// Sum; the caller keeps the result in range.
    pub fn add(self, other: Dec) -> (r: Dec)
        requires
            self.wf(),
            other.wf(),
            in_range(self.units + other.units),
        ensures
            r.units == self.units + other.units,
            r.wf(),
    {
        Dec { units: self.units + other.units }
    }

    /// Difference; the caller keeps the result in range.
    pub fn sub(self, other: Dec) -> (r: Dec)
        requires
            self.wf(),
            other.wf(),
            in_range(self.units - other.units),
        ensures
            r.units == self.units - other.units,
            r.wf(),
    {
        Dec { units: self.units - other.units }
    }

    /// Product, rounded half away from zero at scale 9.
    pub fn mul(self, other: Dec) -> (r: Dec)
        requires
            self.wf(),
            other.wf(),
            abs_int(self.units * other.units) <= MAX_UNITS as int * SCALE as int,
        ensures
            r.units == mul_units(self.units as int, other.units as int),
            r.wf(),
    {
        proof {
            lemma_rdiv_bounded(self.units * other.units, SCALE as int);
        }
        let p: i128 = self.units * other.units;
        Dec { units: rdiv_exec(p, SCALE) }
    }

    /// Quotient, rounded half away from zero at scale 9.
    pub fn div(self, other: Dec) -> (r: Dec)
        requires
            self.wf(),
            other.wf(),
            other.units != 0,
            in_range(div_units(self.units as int, other.units as int)),
        ensures
            r.units == div_units(self.units as int, other.units as int),
            r.wf(),
    {
        let n: i128 = self.units * SCALE;
        if other.units >= 0 {
            Dec { units: rdiv_exec(n, other.units) }
        } else {
            Dec { units: rdiv_exec(-n, -other.units) }
        }
    }

    /// Absolute value.
    pub fn abs(self) -> (r: Dec)
        requires
            self.wf(),
        ensures
            r.units == abs_int(self.units as int),
            r.wf(),
    {
        if self.units >= 0 {
            self
        } else {
            Dec { units: -self.units }
        }
    }

    /// Rounds to eight decimal places, ties to the even digit.
    pub fn round_dp8(self) -> (r: Dec)
        requires
            self.wf(),
        ensures
            r.units == round10_half_even(self.units as int),
            r.wf(),
    {
        proof {
            lemma_round10_even_in_range(self.units as int);
        }
        let m: i128 = if self.units < 0 {
            -self.units
        } else {
            self.units
        };
        let q: i128 = m / 10;
        let rem: i128 = m % 10;
        let rounded: i128 = if rem < 5 {
            q * 10
        } else if rem > 5 {
            (q + 1) * 10
        } else if q % 2 == 0 {
            q * 10
        } else {
            (q + 1) * 10
        };
        if self.units < 0 {
            Dec { units: -rounded }
        } else {
            Dec { units: rounded }
        }
    }

    /// Strictly less than.
    pub fn lt(self, other: Dec) -> (r: bool)
        ensures
            r == (self.units < other.units),
    {
        self.units < other.units
    }

    /// Less than or equal.
    pub fn le(self, other: Dec) -> (r: bool)
        ensures
            r == (self.units <= other.units),
    {
        self.units <= other.units
    }

    /// Strictly greater than.
    pub fn gt(self, other: Dec) -> (r: bool)
        ensures
            r == (self.units > other.units),
    {
        self.units > other.units
    }

    /// Greater than or equal.
    pub fn ge(self, other: Dec) -> (r: bool)
        ensures
            r == (self.units >= other.units),
    {
        self.units >= other.units
    }

    /// Whether the value is exactly zero.
    pub fn is_zero(self) -> (r: bool)
        ensures
            r == (self.units == 0),
    {
        self.units == 0
    }
}

/// The decimal holding a given unit count (spec-level constructor).
pub open spec fn dec_of(u: int) -> Dec {
    Dec { units: u as i128 }
}

/// A non-negative quotient is bounded by any `k` with `n <= k * d`.
pub proof fn lemma_rdiv_bound_by_multiple(n: int, d: int, k: int)
    requires
        0 < d,
        0 <= n,
        n <= k * d,
    ensures
        0 <= rdiv(n, d) <= k,
{
    if k < 0 {
        assert(k * d <= (-1) * d) by {
            vstd::arithmetic::mul::lemma_mul_inequality(k, -1, d);
        }
    }
    assert((k * d + d / 2) / d == k) by {
        vstd::arithmetic::div_mod::lemma_fundamental_div_mod_converse_div(
            k * d + d / 2,
            d,
            k,
            d / 2,
        );
    }
    vstd::arithmetic::div_mod::lemma_div_is_ordered(n + d / 2, k * d + d / 2, d);
    vstd::arithmetic::div_mod::lemma_div_pos_is_pos(n + d / 2, d);
}

/// A whole multiple of the scale divides back out exactly.
pub proof fn lemma_rdiv_multiple(k: int)
    ensures
        rdiv(k * (SCALE as int), SCALE as int) == k,
{
    let s = SCALE as int;
    if k * s >= 0 {
        assert((k * s + s / 2) / s == k) by {
            vstd::arithmetic::div_mod::lemma_fundamental_div_mod_converse_div(
                k * s + s / 2,
                s,
                k,
                s / 2,
            );
        }
    } else {
        assert(-(k * s) == (-k) * s) by {
            vstd::arithmetic::mul::lemma_mul_unary_negation(k, s);
        }
        assert(((-k) * s + s / 2) / s == -k) by {
            vstd::arithmetic::div_mod::lemma_fundamental_div_mod_converse_div(
                (-k) * s + s / 2,
                s,
                -k,
                s / 2,
            );
        }
    }
}

/// Multiplying by the whole number `i` (as `i * SCALE` units) is exact.
pub proof fn lemma_mul_units_by_whole(x: int, i: int)
    ensures
        mul_units(x, i * (SCALE as int)) == x * i,
{
    assert(x * (i * (SCALE as int)) == (x * i) * (SCALE as int)) by {
        vstd::arithmetic::mul::lemma_mul_is_associative(x, i, SCALE as int);
    }
    lemma_rdiv_multiple(x * i);
}

/// Sum of the unit counts of a sequence of decimals.
pub open spec fn sum_units(s: Seq<Dec>) -> int
    decreases s.len(),
{
    if s.len() == 0 {
        0
    } else {
        sum_units(s.drop_last()) + s.last().units
    }
}

/// Sum of the absolute unit counts of a sequence of decimals.
pub open spec fn sum_abs_units(s: Seq<Dec>) -> int
    decreases s.len(),
{
    if s.len() == 0 {
        0
    } else {
        sum_abs_units(s.drop_last()) + abs_int(s.last().units as int)
    }
}

/// Extending a prefix by one element adds that element to its sum.
pub proof fn lemma_sum_take_step(s: Seq<Dec>, i: int)
    requires
        0 <= i < s.len(),
    ensures
        sum_units(s.take(i + 1)) == sum_units(s.take(i)) + s[i].units,
        sum_abs_units(s.take(i + 1)) == sum_abs_units(s.take(i)) + abs_int(s[i].units as int),
{
    assert(s.take(i + 1).drop_last() =~= s.take(i));
    assert(s.take(i + 1).last() == s[i]);
}

/// A sum is bounded in magnitude by the sum of absolute values.
pub proof fn lemma_sum_le_sum_abs(s: Seq<Dec>)
    ensures
        abs_int(sum_units(s)) <= sum_abs_units(s),
        0 <= sum_abs_units(s),
    decreases s.len(),
{
    if s.len() > 0 {
        lemma_sum_le_sum_abs(s.drop_last());
    }
}

/// Absolute sums grow along prefixes.
pub proof fn lemma_sum_abs_take_le(s: Seq<Dec>, i: int)
    requires
        0 <= i <= s.len(),
    ensures
        sum_abs_units(s.take(i)) <= sum_abs_units(s),
    decreases s.len() - i,
{
    if i < s.len() {
        lemma_sum_take_step(s, i);
        lemma_sum_abs_take_le(s, i + 1);
    } else {
        assert(s.take(i) =~= s);
    }
}

/// Dividing by a whole number `p >= 1` (given as `p * SCALE` units) never
/// grows the magnitude.
pub proof fn lemma_div_units_by_whole(a: int, p: int)
    requires
        1 <= p,
        p * (SCALE as int) <= MAX_UNITS as int,
    ensures
        abs_int(div_units(a, p * (SCALE as int))) <= abs_int(a),
{
    let s = SCALE as int;
    let d = p * s;
    assert(s <= d) by {
        vstd::arithmetic::mul::lemma_mul_inequality(1, p, s);
    }
    assert(d / 2 < d);
    if a >= 0 {
        assert(a * s <= a * d) by {
            vstd::arithmetic::mul::lemma_mul_inequality(s, d, a);
            vstd::arithmetic::mul::lemma_mul_is_commutative(a, s);
            vstd::arithmetic::mul::lemma_mul_is_commutative(a, d);
        }
        assert((a * d + d / 2) / d == a) by {
            vstd::arithmetic::div_mod::lemma_fundamental_div_mod_converse_div(
                a * d + d / 2,
                d,
                a,
                d / 2,
            );
        }
        vstd::arithmetic::div_mod::lemma_div_is_ordered(a * s + d / 2, a * d + d / 2, d);
        vstd::arithmetic::div_mod::lemma_div_pos_is_pos(a * s + d / 2, d);
    } else {
        let b = -a;
        assert(b * s <= b * d) by {
            vstd::arithmetic::mul::lemma_mul_inequality(s, d, b);
            vstd::arithmetic::mul::lemma_mul_is_commutative(b, s);
            vstd::arithmetic::mul::lemma_mul_is_commutative(b, d);
        }
        assert((b * d + d / 2) / d == b) by {
            vstd::arithmetic::div_mod::lemma_fundamental_div_mod_converse_div(
                b * d + d / 2,
                d,
                b,
                d / 2,
            );
        }
        vstd::arithmetic::div_mod::lemma_div_is_ordered(b * s + d / 2, b * d + d / 2, d);
        vstd::arithmetic::div_mod::lemma_div_pos_is_pos(b * s + d / 2, d);
        assert(b * s == -(a * s)) by (nonlinear_arith)
            requires
                b == -a,
        ;
    }
}

/// A product bounded by `MAX_UNITS * d`, rounded down to scale by `d`, stays
/// within the decimal range.
proof fn lemma_rdiv_bounded(n: int, d: int)
    requires
        0 < d,
        abs_int(n) <= MAX_UNITS as int * d,
    ensures
        abs_int(rdiv(n, d)) <= MAX_UNITS as int,
{
    let m = MAX_UNITS as int;
    assert((m * d + d / 2) / d == m) by {
        vstd::arithmetic::div_mod::lemma_fundamental_div_mod_converse_div(
            m * d + d / 2,
            d,
            m,
            d / 2,
        );
    }
    if n >= 0 {
        vstd::arithmetic::div_mod::lemma_div_is_ordered(n + d / 2, m * d + d / 2, d);
        vstd::arithmetic::div_mod::lemma_div_pos_is_pos(n + d / 2, d);
    } else {
        vstd::arithmetic::div_mod::lemma_div_is_ordered(-n + d / 2, m * d + d / 2, d);
        vstd::arithmetic::div_mod::lemma_div_pos_is_pos(-n + d / 2, d);
    }
}

/// Even-tie rounding never exceeds away-from-zero rounding, so it stays in
/// the decimal range too.
proof fn lemma_round10_even_in_range(n: int)
    requires
        in_range(n),
    ensures
        in_range(round10_half_even(n)),
        n >= 0 ==> 0 <= round10_half_even(n),
        n < 0 ==> round10_half_even(n) <= 0,
{
    lemma_round10_in_range(n);
    if n >= 0 {
        lemma_round10_even_le_half_up(n);
    } else {
        lemma_round10_even_le_half_up(-n);
    }
}

/// For `m >= 0`, the even-tie rounding lies between zero and the
/// half-away-from-zero rounding.
proof fn lemma_round10_even_le_half_up(m: int)
    requires
        0 <= m,
    ensures
        0 <= round10_half_even_pos(m) <= rdiv(m, 10) * 10,
{
    let q = m / 10;
    let r = m % 10;
    vstd::arithmetic::div_mod::lemma_fundamental_div_mod(m, 10);
    vstd::arithmetic::div_mod::lemma_mod_pos_bound(m, 10);
    vstd::arithmetic::div_mod::lemma_div_pos_is_pos(m, 10);
    if r < 5 {
        assert((m + 5) / 10 == q) by {
            vstd::arithmetic::div_mod::lemma_fundamental_div_mod_converse_div(
                m + 5,
                10,
                q,
                r + 5,
            );
        }
    } else {
        assert((m + 5) / 10 == q + 1) by {
            vstd::arithmetic::div_mod::lemma_fundamental_div_mod_converse_div(
                m + 5,
                10,
                q + 1,
                r - 5,
            );
        }
    }
}

/// Rounding at the eighth decimal place never leaves the decimal range.
proof fn lemma_round10_in_range(n: int)
    requires
        in_range(n),
    ensures
        in_range(rdiv(n, 10) * 10),
{
    let m = MAX_UNITS as int;
    let q = 1_000_000_000_000_000_000_000_000_000int;
    assert((m + 5) / 10 == q) by {
        vstd::arithmetic::div_mod::lemma_fundamental_div_mod_converse_div(m + 5, 10, q, 5);
    }
    if n >= 0 {
        vstd::arithmetic::div_mod::lemma_div_is_ordered(n + 5, m + 5, 10);
        vstd::arithmetic::div_mod::lemma_div_pos_is_pos(n + 5, 10);
    } else {
        vstd::arithmetic::div_mod::lemma_div_is_ordered(-n + 5, m + 5, 10);
        vstd::arithmetic::div_mod::lemma_div_pos_is_pos(-n + 5, 10);
    }
}

} // verus!
