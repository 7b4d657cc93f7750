//! Position sizing under a fixed risk budget.
//!
//! A [`PositionSizer`] converts a price into an exact order quantity:
//! `round((wallet_size * risk_percentage) / price, 8 decimal places)`, with a
//! non-positive price sized to zero rather than treated as an error.

use vstd::prelude::*;
use crate::dec::{Dec, SCALE, MAX_UNITS, abs_int, in_range, mul_units, div_units, round10_half_even};

verus! {

/// Computes order quantities from a wallet size and a risk fraction.
#[derive(Clone, Debug)]
pub struct PositionSizer {
    /// Total wallet value available to the strategy.
    pub wallet_size: Dec,
    /// Fraction of the wallet risked per order (0.005 is 0.5%).
    pub risk_percentage: Dec,
}

impl PositionSizer {
    /// Both configuration values lie in the decimal range and their product
    /// (the risk budget) can be computed.
    pub open spec fn wf(self) -> bool {
        &&& self.wallet_size.wf()
        &&& self.risk_percentage.wf()
        &&& abs_int(self.wallet_size.units * self.risk_percentage.units) <= MAX_UNITS as int
            * SCALE as int
    }

    /// Units of the dollar amount risked per order.
    pub open spec fn risk_amount_units(self) -> int {
        mul_units(self.wallet_size.units as int, self.risk_percentage.units as int)
    }

    /// Units of the quantity bought at `price` units: the risk amount divided
    /// by the price, rounded to eight decimal places (ties to even); zero
    /// when the price is not positive.
    pub open spec fn quantity_units(self, price: int) -> int {
        if price <= 0 {
            0
        } else {
            round10_half_even(div_units(self.risk_amount_units(), price))
        }
    }

    /// The quantity at `price` stays in the decimal range (always true for a
    /// non-positive price, where the quantity is zero).
    pub open spec fn quantity_in_range(self, price: int) -> bool {
        price > 0 ==> in_range(div_units(self.risk_amount_units(), price))
    }

    /// Creates a sizer with the given wallet size and the default 0.5% risk.
    pub fn new(wallet_size: Dec) -> (r: PositionSizer)
        requires
            wallet_size.wf(),
        ensures
            r.wallet_size == wallet_size,
            r.risk_percentage.units == 5_000_000int,
            r.wf(),
    {
        PositionSizer { wallet_size, risk_percentage: Dec::from_units(5_000_000) }
    }

    /// Creates a sizer with a custom risk percentage.
    pub fn with_risk(wallet_size: Dec, risk_percentage: Dec) -> (r: PositionSizer)
        requires
            wallet_size.wf(),
            risk_percentage.wf(),
            abs_int(wallet_size.units * risk_percentage.units) <= MAX_UNITS as int * SCALE as int,
        ensures
            r.wallet_size == wallet_size,
            r.risk_percentage == risk_percentage,
            r.wf(),
    {
        PositionSizer { wallet_size, risk_percentage }
    }

    /// Exact quantity to order at `price`: the risk amount over the price,
    /// rounded to eight decimal places; zero for a non-positive price.
    pub fn calculate_quantity(&self, price: Dec) -> (r: Dec)
        requires
            self.wf(),
            price.wf(),
            self.quantity_in_range(price.units as int),
        ensures
            r.units == self.quantity_units(price.units as int),
            r.wf(),
    {
        if price.le(Dec::zero()) {
            return Dec::zero();
        }
        let risk_amount: Dec = self.wallet_size.mul(self.risk_percentage);
        let quantity: Dec = risk_amount.div(price);
        quantity.round_dp8()
    }

    /// Dollar value of the position the sizer would open at `price`: the
    /// computed quantity times the price.
    pub fn calculate_position_value(&self, price: Dec) -> (r: Dec)
        requires
            self.wf(),
            price.wf(),
            self.quantity_in_range(price.units as int),
            abs_int(self.quantity_units(price.units as int) * price.units) <= MAX_UNITS as int
                * SCALE as int,
        ensures
            r.units == mul_units(self.quantity_units(price.units as int), price.units as int),
            r.wf(),
    {
        let quantity: Dec = self.calculate_quantity(price);
        quantity.mul(price)
    }

    /// Whether the quantity at `price` stays within the decimal range, so
    /// that [`Self::calculate_quantity`] may be called.
    pub fn quantity_ok(&self, price: Dec) -> (r: bool)
        requires
            self.wf(),
            price.wf(),
        ensures
            r == self.quantity_in_range(price.units as int),
    {
        if price.units <= 0 {
            return true;
        }
        let risk: Dec = self.wallet_size.mul(self.risk_percentage);
        let n: i128 = risk.units * SCALE;
        let q: i128 = crate::dec::rdiv_exec(n, price.units);
        -MAX_UNITS <= q && q <= MAX_UNITS
    }

    /// Replaces the wallet size.
    pub fn update_wallet_size(&mut self, new_wallet_size: Dec)
        requires
            old(self).wf(),
            new_wallet_size.wf(),
            abs_int(new_wallet_size.units * old(self).risk_percentage.units) <= MAX_UNITS as int
                * SCALE as int,
        ensures
            final(self).wallet_size == new_wallet_size,
            final(self).risk_percentage == old(self).risk_percentage,
            final(self).wf(),
    {
        self.wallet_size = new_wallet_size;
    }

    /// Replaces the risk percentage.
    pub fn update_risk_percentage(&mut self, new_risk_percentage: Dec)
        requires
            old(self).wf(),
            new_risk_percentage.wf(),
            abs_int(old(self).wallet_size.units * new_risk_percentage.units) <= MAX_UNITS as int
                * SCALE as int,
        ensures
            final(self).wallet_size == old(self).wallet_size,
            final(self).risk_percentage == new_risk_percentage,
            final(self).wf(),
    {
        self.risk_percentage = new_risk_percentage;
    }

    /// Current wallet size.
    pub fn wallet_size(&self) -> (r: Dec)
        ensures
            r == self.wallet_size,
    {
        self.wallet_size
    }

    /// Current risk percentage.
    pub fn risk_percentage(&self) -> (r: Dec)
        ensures
            r == self.risk_percentage,
    {
        self.risk_percentage
    }

    /// Current dollar amount risked per order.
    pub fn risk_amount(&self) -> (r: Dec)
        requires
            self.wf(),
        ensures
            r.units == self.risk_amount_units(),
            r.wf(),
    {
        self.wallet_size.mul(self.risk_percentage)
    }
}

impl Default for PositionSizer {
    /// A sizer over a $50,000 wallet at the default risk.
    fn default() -> (r: Self)
        ensures
            r.wallet_size.units == 50_000int * SCALE as int,
            r.risk_percentage.units == 5_000_000int,
            r.wf(),
    {
        PositionSizer::new(Dec::from_int(50_000))
    }
}

} // verus!
