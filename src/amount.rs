//! Exact decimal amounts, held as a signed mantissa and a decimal scale,
//! with the arithmetic of `rust_decimal` behind small wrappers.
use rust_decimal::Decimal;
use std::str::FromStr;
use vstd::prelude::*;

verus! {

/// Largest magnitude of a mantissa: 2^96 - 1.
pub const MAX_MANTISSA: i128 = 79228162514264337593543950335;

/// Largest number of digits after the decimal point.
pub const MAX_SCALE: u32 = 28;

/// The decimal number `mantissa / 10^scale`.
#[derive(Clone, Copy, Debug, PartialEq, Eq)]
pub struct Amount {
    pub mantissa: i128,
    pub scale: u32,
}

pub open spec fn pow10(n: nat) -> int
    decreases n,
{
    if n == 0 {
        1
    } else {
        10 * pow10((n - 1) as nat)
    }
}

pub open spec fn abs(v: int) -> int {
    if v < 0 {
        -v
    } else {
        v
    }
}

/// The value in units of 10^-28, the finest step that an amount can have.
pub open spec fn units(a: Amount) -> int {
    a.mantissa * pow10((MAX_SCALE - a.scale) as nat)
}

/// The larger of the two scales: the scale at which a sum or difference is formed.
pub open spec fn common_scale(a: Amount, b: Amount) -> nat {
    if a.scale >= b.scale {
        a.scale as nat
    } else {
        b.scale as nat
    }
}

/// `v` (in units) is representable at the scale common to `a` and `b`, so
/// that adding or subtracting them needs no rounding.
pub open spec fn fits_exactly(a: Amount, b: Amount, v: int) -> bool {
    abs(v) <= MAX_MANTISSA * pow10((MAX_SCALE - common_scale(a, b)) as nat)
}

/// What `Decimal::checked_add` returns on the two amounts.
pub uninterp spec fn checked_add_of(a: Amount, b: Amount) -> Option<Amount>;

/// What `Decimal::checked_sub` returns on the two amounts.
pub uninterp spec fn checked_sub_of(a: Amount, b: Amount) -> Option<Amount>;

/// What `Decimal::saturating_add` returns on the two amounts.
pub uninterp spec fn saturating_add_of(a: Amount, b: Amount) -> Amount;

/// What `Decimal::saturating_sub` returns on the two amounts.
pub uninterp spec fn saturating_sub_of(a: Amount, b: Amount) -> Amount;

/// What `Decimal::from_str` makes of the text.
pub uninterp spec fn decimal_text_of(s: Seq<char>) -> Option<Amount>;

impl Amount {
    /// A mantissa within 96 bits and a scale of at most 28, as in a `Decimal`.
    pub open spec fn wf(self) -> bool {
        -MAX_MANTISSA <= self.mantissa <= MAX_MANTISSA && self.scale <= MAX_SCALE
    }

    pub fn zero() -> (r: Amount)
        ensures
            r.wf(),
            units(r) == 0,
    {
        Amount { mantissa: 0, scale: 0 }
    }
}

/// Relies on `Decimal::checked_add`: `None` only on overflow, and the exact
/// sum whenever it is representable at the larger of the two scales.
#[verifier::external_body]
pub(crate) fn checked_add(a: Amount, b: Amount) -> (r: Option<Amount>)
    requires
        a.wf(),
        b.wf(),
    ensures
        r == checked_add_of(a, b),
        r matches Some(s) ==> s.wf(),
        fits_exactly(a, b, units(a) + units(b)) ==> r is Some,
        fits_exactly(a, b, units(a) + units(b)) ==> units(r->0) == units(a) + units(b),
{
    let x = Decimal::from_i128_with_scale(a.mantissa, a.scale);
    let y = Decimal::from_i128_with_scale(b.mantissa, b.scale);
    x.checked_add(y).map(|d| Amount { mantissa: d.mantissa(), scale: d.scale() })
}

/// Relies on `Decimal::checked_sub`: `None` only on overflow, and the exact
/// difference whenever it is representable at the larger of the two scales.
#[verifier::external_body]
pub(crate) fn checked_sub(a: Amount, b: Amount) -> (r: Option<Amount>)
    requires
        a.wf(),
        b.wf(),
    ensures
        r == checked_sub_of(a, b),
        r matches Some(s) ==> s.wf(),
        fits_exactly(a, b, units(a) - units(b)) ==> r is Some,
        fits_exactly(a, b, units(a) - units(b)) ==> units(r->0) == units(a) - units(b),
{
    let x = Decimal::from_i128_with_scale(a.mantissa, a.scale);
    let y = Decimal::from_i128_with_scale(b.mantissa, b.scale);
    x.checked_sub(y).map(|d| Amount { mantissa: d.mantissa(), scale: d.scale() })
}

/// Relies on `Decimal::saturating_add`: the exact sum whenever it is
/// representable at the larger of the two scales, else a bound of the range.
#[verifier::external_body]
pub(crate) fn saturating_add(a: Amount, b: Amount) -> (r: Amount)
    requires
        a.wf(),
        b.wf(),
    ensures
        r == saturating_add_of(a, b),
        r.wf(),
        fits_exactly(a, b, units(a) + units(b)) ==> units(r) == units(a) + units(b),
{
    let x = Decimal::from_i128_with_scale(a.mantissa, a.scale);
    let y = Decimal::from_i128_with_scale(b.mantissa, b.scale);
    let d = x.saturating_add(y);
    Amount { mantissa: d.mantissa(), scale: d.scale() }
}

/// Relies on `Decimal::saturating_sub`: the exact difference whenever it is
/// representable at the larger of the two scales, else a bound of the range.
#[verifier::external_body]
pub(crate) fn saturating_sub(a: Amount, b: Amount) -> (r: Amount)
    requires
        a.wf(),
        b.wf(),
    ensures
        r == saturating_sub_of(a, b),
        r.wf(),
        fits_exactly(a, b, units(a) - units(b)) ==> units(r) == units(a) - units(b),
{
    let x = Decimal::from_i128_with_scale(a.mantissa, a.scale);
    let y = Decimal::from_i128_with_scale(b.mantissa, b.scale);
    let d = x.saturating_sub(y);
    Amount { mantissa: d.mantissa(), scale: d.scale() }
}

/// Relies on the `Ord` of `Decimal`, which orders by numeric value.
#[verifier::external_body]
pub(crate) fn less_than(a: Amount, b: Amount) -> (r: bool)
    requires
        a.wf(),
        b.wf(),
    ensures
        r == (units(a) < units(b)),
{
    let x = Decimal::from_i128_with_scale(a.mantissa, a.scale);
    let y = Decimal::from_i128_with_scale(b.mantissa, b.scale);
    x < y
}

/// Relies on `Decimal::from_str`: the text as an exact decimal, or `None`
/// where it is no decimal number or lies outside the range.
#[verifier::external_body]
pub fn parse_amount(s: &str) -> (r: Option<Amount>)
    ensures
        r == decimal_text_of(s@),
        r matches Some(a) ==> a.wf(),
{
    Decimal::from_str(s).ok().map(|d| Amount { mantissa: d.mantissa(), scale: d.scale() })
}

} // verus!
