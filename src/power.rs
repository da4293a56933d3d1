//! A socket's power draw, in thousandths of a watt.
use vstd::prelude::*;
use crate::ratio::{lemma_ratio_ends, ratio_between, ratio_numerator, Ratio};
use crate::reading::{plain_text, push_plain};

verus! {

/// A power draw in thousandths of a watt.
#[derive(Debug, Clone, Copy, PartialEq, Eq, Structural)]
pub struct Power(i64);

impl View for Power {
    type V = int;

    closed spec fn view(&self) -> int {
        self.0 as int
    }
}

/// `value` lies within the bounds that `set` accepts.
pub open spec fn power_in_bounds(value: int) -> bool {
    Power::MIN_POWER <= value <= Power::MAX_POWER
}

/// The power after `set(value)` on `current`.
pub open spec fn power_after_set(current: int, value: int) -> int {
    if power_in_bounds(value) {
        value
    } else {
        current
    }
}

impl Power {
    /// 500 W.
    pub const MIN_POWER: i64 = 500_000;

    /// 2000 W.
    pub const MAX_POWER: i64 = 2_000_000;

    /// The step of 2.5 W between settings.
    pub const GRADUATION: i64 = 2_500;

    /// A power holding `power` as it is, in or out of bounds.
    pub fn new(power: i64) -> (r: Self)
        ensures
            r@ == power,
    {
        Power(power)
    }

    pub fn get(&self) -> (r: i64)
        ensures
            r == self@,
    {
        self.0
    }

    /// Takes `value` where it lies within the bounds, both included; leaves
    /// the power as it was otherwise.
    pub fn set(&mut self, value: i64)
        ensures
            final(self)@ == power_after_set(old(self)@, value as int),
    {
        if Self::MIN_POWER <= value && value <= Self::MAX_POWER {
            self.0 = value;
        }
    }

    /// The position of `power` within the bounds.
    pub fn ratio(power: i64) -> (r: Ratio)
        ensures
            r.numerator == ratio_numerator(power as int, Self::MIN_POWER as int),
            r.denominator == Self::MAX_POWER - Self::MIN_POWER,
    {
        ratio_between(power, Self::MIN_POWER, Self::MAX_POWER)
    }

    /// The power with no more decimals than it has (`1500`, `21.5`).
    pub fn to_text(&self) -> (r: String)
        ensures
            r@ == plain_text(self@),
    {
        let mut out = String::new();
        push_plain(&mut out, self.0);
        out
    }
}

impl Default for Power {
    fn default() -> (r: Self)
        ensures
            r@ == 0,
    {
        Power(0)
    }
}

/// Setting either bound takes it; setting a value past either bound leaves
/// the power draw as it was.
pub proof fn lemma_power_set_bounds(current: int, eps: int)
    requires
        eps > 0,
    ensures
        power_after_set(current, Power::MIN_POWER as int)
            == Power::MIN_POWER,
        power_after_set(current, Power::MAX_POWER as int)
            == Power::MAX_POWER,
        power_after_set(current, Power::MIN_POWER - eps) == current,
        power_after_set(current, Power::MAX_POWER + eps) == current,
{
}

/// The lower bound sits at zero, the upper bound at the whole interval, and
/// every power draw below the lower bound at zero.
pub proof fn lemma_power_ratio_ends(v: int)
    ensures
        ratio_numerator(Power::MIN_POWER as int, Power::MIN_POWER as int)
            == 0,
        ratio_numerator(Power::MAX_POWER as int, Power::MIN_POWER as int)
            == Power::MAX_POWER - Power::MIN_POWER,
        v < Power::MIN_POWER ==> ratio_numerator(
            v,
            Power::MIN_POWER as int,
        ) == 0,
{
    lemma_ratio_ends(Power::MIN_POWER as int, Power::MAX_POWER as int, v);
}

} // verus!
