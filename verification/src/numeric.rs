//! Exact fixed-point numeric types for quantities and prices.
//!
//! Quantities are counted in units of 0.0001 kWh, so the four-fractional-digit
//! invariant of the data model holds by construction and all quantity
//! arithmetic is exact integer arithmetic.
//!
//! Prices keep the mantissa and scale they were supplied with (so they
//! round-trip exactly) and are compared by value: a price is viewed as an
//! integer count of 10^-19 currency units.

use vstd::prelude::*;

verus! {

/// Number of 0.0001-kWh units in one kWh.
pub const QTY_UNITS_PER_KWH: u64 = 10_000;

/// Quantity ceiling of 1_000_000 kWh, in 0.0001-kWh units.
pub const MAX_KWH_UNITS: u64 = 10_000_000_000;

/// Largest number of fractional digits a price may carry.
pub const MAX_PRICE_SCALE: u32 = 19;

/// 10^e as a mathematical integer.
pub open spec fn pow10(e: nat) -> int
    decreases e,
{
    if e == 0 {
        1
    } else {
        10 * pow10((e - 1) as nat)
    }
}

pub proof fn lemma_pow10_positive(e: nat)
    ensures
        pow10(e) >= 1,
    decreases e,
{
    if e > 0 {
        lemma_pow10_positive((e - 1) as nat);
    }
}

pub proof fn lemma_pow10_19()
    ensures
        pow10(19) == 10_000_000_000_000_000_000,
{
    reveal_with_fuel(pow10, 20);
}

/// An exact quantity of energy, counted in units of 0.0001 kWh.
///
/// The unit grid is the rounding granularity of the engine: every quantity
/// representable here already has at most four fractional digits of kWh.
#[derive(Clone, Copy, PartialEq, Eq, Structural, Debug)]
pub struct Qty {
    pub units: u64,
}

impl Qty {
    /// A quantity from a raw count of 0.0001-kWh units.
    pub fn from_units(units: u64) -> (r: Qty)
        ensures
            r.units == units,
    {
        Qty { units }
    }

    /// A quantity from a whole number of kWh.
    pub fn from_kwh(kwh: u64) -> (r: Qty)
        requires
            kwh * QTY_UNITS_PER_KWH <= u64::MAX,
        ensures
            r.units == kwh * QTY_UNITS_PER_KWH,
    {
        Qty { units: kwh * QTY_UNITS_PER_KWH }
    }

    pub fn is_zero(&self) -> (r: bool)
        ensures
            r == (self.units == 0),
    {
        self.units == 0
    }

    /// The smaller of two quantities.
    pub fn min(self, other: Qty) -> (r: Qty)
        ensures
            r.units == if self.units <= other.units {
                self.units
            } else {
                other.units
            },
    {
        if self.units <= other.units {
            self
        } else {
            other
        }
    }

    /// Exact subtraction; the argument must not exceed `self`.
    pub fn minus(self, other: Qty) -> (r: Qty)
        requires
            other.units <= self.units,
        ensures
            r.units == self.units - other.units,
    {
        Qty { units: self.units - other.units }
    }
}

/// A unit price, exactly as supplied: `mantissa / 10^scale`.
#[derive(Clone, Copy, PartialEq, Eq, Structural, Debug)]
pub struct Price {
    pub mantissa: u64,
    pub scale: u32,
}

impl Price {
    /// The scale must leave the value representable on the comparison grid.
    pub open spec fn wf(self) -> bool {
        self.scale <= MAX_PRICE_SCALE
    }

    /// The price as an integer count of 10^-19 currency units.
    pub open spec fn val(self) -> int {
        self.mantissa * pow10((MAX_PRICE_SCALE - self.scale) as nat)
    }

    /// A price of `mantissa / 10^scale`; `None` when the scale is too deep.
    pub fn new(mantissa: u64, scale: u32) -> (r: Option<Price>)
        ensures
            scale <= MAX_PRICE_SCALE <==> r is Some,
            r matches Some(p) ==> p == (Price { mantissa, scale }) && p.wf(),
    {
        if scale <= MAX_PRICE_SCALE {
            Some(Price { mantissa, scale })
        } else {
            None
        }
    }

    /// The price scaled to the common 10^-19 grid.
    fn scaled(self) -> (r: u128)
        requires
            self.wf(),
        ensures
            r == self.val(),
    {
        let p = pow10_u128(MAX_PRICE_SCALE - self.scale);
        proof {
            lemma_pow10_19();
            lemma_pow10_mono((MAX_PRICE_SCALE - self.scale) as nat, 19);
            assert((self.mantissa as int) * (p as int) <= u64::MAX * 10_000_000_000_000_000_000)
                by (nonlinear_arith)
                requires
                    self.mantissa <= u64::MAX,
                    0 <= p <= 10_000_000_000_000_000_000,
            ;
        }
        (self.mantissa as u128) * p
    }

    pub fn lt(&self, other: &Price) -> (r: bool)
        requires
            self.wf(),
            other.wf(),
        ensures
            r == (self.val() < other.val()),
    {
        self.scaled() < other.scaled()
    }
}

pub proof fn lemma_pow10_mono(a: nat, b: nat)
    requires
        a <= b,
    ensures
        pow10(a) <= pow10(b),
    decreases b,
{
    if a < b {
        lemma_pow10_mono(a, (b - 1) as nat);
        lemma_pow10_positive((b - 1) as nat);
    }
}

fn pow10_u128(e: u32) -> (r: u128)
    requires
        e <= MAX_PRICE_SCALE,
    ensures
        r == pow10(e as nat),
{
    let mut r: u128 = 1;
    let mut i: u32 = 0;
    while i < e
        invariant
            i <= e,
            e <= MAX_PRICE_SCALE,
            r == pow10(i as nat),
        decreases e - i,
    {
        proof {
            lemma_pow10_19();
            lemma_pow10_mono((i + 1) as nat, 19);
            lemma_pow10_positive(i as nat);
        }
        r = r * 10;
        i = i + 1;
    }
    r
}

} // verus!
