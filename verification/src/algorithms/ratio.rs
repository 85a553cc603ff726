//! Exact similarity values.
//!
//! Every score in this library that is a quotient of two counts is returned
//! as the pair of counts, so the value is exact; turning it into a float is
//! one division, left to the caller.
use vstd::prelude::*;

verus! {

/// The similarity `num / den`, a value in `[0, 1]`.
#[derive(Debug, Clone, Copy, PartialEq, Eq)]
pub struct Ratio {
    pub num: u128,
    pub den: u128,
}

impl Ratio {
    /// A well-formed ratio lies in `[0, 1]` and has a positive denominator.
    pub open spec fn wf(self) -> bool {
        0 < self.den && self.num <= self.den
    }

    /// The ratio as a pair of mathematical integers.
    pub open spec fn parts(self) -> (int, int) {
        (self.num as int, self.den as int)
    }

    /// Full similarity, `1 / 1`.
    pub fn one() -> (r: Ratio)
        ensures r == (Ratio { num: 1, den: 1 }), r.wf(),
    {
        Ratio { num: 1, den: 1 }
    }

    /// No similarity, `0 / 1`.
    pub fn zero() -> (r: Ratio)
        ensures r == (Ratio { num: 0, den: 1 }), r.wf(),
    {
        Ratio { num: 0, den: 1 }
    }
}

/// The larger of two lengths.
pub open spec fn max_nat(a: int, b: int) -> int {
    if a >= b { a } else { b }
}

/// The smaller of two lengths.
pub open spec fn min_nat(a: int, b: int) -> int {
    if a <= b { a } else { b }
}

} // verus!
