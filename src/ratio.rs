//! The position of a value within a bound interval, for proportional display.
use vstd::prelude::*;

verus! {

/// `numerator / denominator` is the position of a value within its bounds.
#[derive(Debug, Clone, Copy, PartialEq, Eq, Structural)]
pub struct Ratio {
    pub numerator: u64,
    pub denominator: u64,
}

/// How far `value` lies above `min`; nothing for a value below it.
pub open spec fn ratio_numerator(value: int, min: int) -> int {
    if value < min {
        0
    } else {
        value - min
    }
}

/// The position of `value` in `[min, max]`: `(value - min) / (max - min)`,
/// and zero below `min`.
pub fn ratio_between(value: i64, min: i64, max: i64) -> (r: Ratio)
    requires
        0 <= min < max,
    ensures
        r.numerator == ratio_numerator(value as int, min as int),
        r.denominator == max - min,
{
    let numerator: u64 = if value < min {
        0
    } else {
        (value - min) as u64
    };
    Ratio { numerator, denominator: (max - min) as u64 }
}

/// The lower bound sits at zero, the upper bound at the whole interval, and
/// every value below the lower bound at zero.
pub proof fn lemma_ratio_ends(min: int, max: int, v: int)
    requires
        min < max,
    ensures
        ratio_numerator(min, min) == 0,
        ratio_numerator(max, min) == max - min,
        v < min ==> ratio_numerator(v, min) == 0,
{
}

} // verus!
