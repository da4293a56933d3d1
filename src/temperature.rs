//! A thermometer's reading, in thousandths of a degree.
use vstd::prelude::*;
use crate::ratio::{lemma_ratio_ends, ratio_between, ratio_numerator, Ratio};
use crate::reading::{fixed_text, push_fixed};

verus! {

/// A temperature in thousandths of a degree.
#[derive(Debug, Clone, Copy, PartialEq, Eq, Structural)]
pub struct Temperature(i64);

impl View for Temperature {
    type V = int;

    closed spec fn view(&self) -> int {
        self.0 as int
    }
}

/// `value` lies within the bounds that `set` accepts.
pub open spec fn temperature_in_bounds(value: int) -> bool {
    Temperature::MIN_TEMPERATURE <= value <= Temperature::MAX_TEMPERATURE
}

/// The temperature after `set(value)` on `current`.
pub open spec fn temperature_after_set(current: int, value: int) -> int {
    if temperature_in_bounds(value) {
        value
    } else {
        current
    }
}

impl Temperature {
    /// 0 degrees.
    pub const MIN_TEMPERATURE: i64 = 0;

    /// 100 degrees.
    pub const MAX_TEMPERATURE: i64 = 100_000;

    /// The step of a half degree between settings.
    pub const GRADUATION: i64 = 500;

    /// A temperature holding `temperature` as it is, in or out of bounds.
    pub fn new(temperature: i64) -> (r: Self)
        ensures
            r@ == temperature,
    {
        Temperature(temperature)
    }

    pub fn get(&self) -> (r: i64)
        ensures
            r == self@,
    {
        self.0
    }

    /// Takes `value` where it lies within the bounds, both included; leaves
    /// the temperature as it was otherwise.
    pub fn set(&mut self, value: i64)
        ensures
            final(self)@ == temperature_after_set(old(self)@, value as int),
    {
        if Self::MIN_TEMPERATURE <= value && value <= Self::MAX_TEMPERATURE {
            self.0 = value;
        }
    }

    /// The position of `temperature` within the bounds.
    pub fn ratio(temperature: i64) -> (r: Ratio)
        ensures
            r.numerator == ratio_numerator(temperature as int, Self::MIN_TEMPERATURE as int),
            r.denominator == Self::MAX_TEMPERATURE - Self::MIN_TEMPERATURE,
    {
        ratio_between(temperature, Self::MIN_TEMPERATURE, Self::MAX_TEMPERATURE)
    }

    /// The temperature with three decimals (`21.500`).
    pub fn to_text(&self) -> (r: String)
        ensures
            r@ == fixed_text(self@),
    {
        let mut out = String::new();
        push_fixed(&mut out, self.0);
        out
    }
}

impl Default for Temperature {
    fn default() -> (r: Self)
        ensures
            r@ == 0,
    {
        Temperature(0)
    }
}

/// Setting either bound takes it; setting a value past either bound leaves
/// the temperature as it was.
pub proof fn lemma_temperature_set_bounds(current: int, eps: int)
    requires
        eps > 0,
    ensures
        temperature_after_set(current, Temperature::MIN_TEMPERATURE as int)
            == Temperature::MIN_TEMPERATURE,
        temperature_after_set(current, Temperature::MAX_TEMPERATURE as int)
            == Temperature::MAX_TEMPERATURE,
        temperature_after_set(current, Temperature::MIN_TEMPERATURE - eps) == current,
        temperature_after_set(current, Temperature::MAX_TEMPERATURE + eps) == current,
{
}

/// The lower bound sits at zero, the upper bound at the whole interval, and
/// every temperature below the lower bound at zero.
pub proof fn lemma_temperature_ratio_ends(v: int)
    ensures
        ratio_numerator(Temperature::MIN_TEMPERATURE as int, Temperature::MIN_TEMPERATURE as int)
            == 0,
        ratio_numerator(Temperature::MAX_TEMPERATURE as int, Temperature::MIN_TEMPERATURE as int)
            == Temperature::MAX_TEMPERATURE - Temperature::MIN_TEMPERATURE,
        v < Temperature::MIN_TEMPERATURE ==> ratio_numerator(
            v,
            Temperature::MIN_TEMPERATURE as int,
        ) == 0,
{
    lemma_ratio_ends(Temperature::MIN_TEMPERATURE as int, Temperature::MAX_TEMPERATURE as int, v);
}

} // verus!
