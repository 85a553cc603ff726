//! Longest common suffix similarity: the length of the shared trailing run,
//! normalized by the length of the longer input.
use vstd::prelude::*;

use crate::algorithms::ratio::{max_nat, Ratio};
use crate::algorithms::runs::{common_suffix_len, common_suffix_length, lemma_run_symmetric, lemma_run_witness, run_ending};
use crate::text::{normalize_input, normalized};

verus! {

#[derive(Debug, Clone, Default)]
pub struct LCSuf {
    /// Whether to perform case-insensitive comparison.
    pub case_insensitive: bool,
}

/// Suffix similarity of two character sequences, as `(numerator, denominator)`:
/// `1` when both are empty, `0` when exactly one is, and otherwise the common
/// suffix length over the longer length.
pub open spec fn suffix_ratio(x: Seq<char>, y: Seq<char>) -> (int, int) {
    if x.len() == 0 && y.len() == 0 {
        (1, 1)
    } else if x.len() == 0 || y.len() == 0 {
        (0, 1)
    } else {
        (common_suffix_len(x, y) as int, max_nat(x.len() as int, y.len() as int))
    }
}

impl LCSuf {
    pub fn new(case_insensitive: bool) -> (r: Self)
        ensures r.case_insensitive == case_insensitive,
    {
        LCSuf { case_insensitive }
    }

    /// The suffix similarity of `x` and `y` after case normalization.
    pub fn similarity(&self, x: &str, y: &str) -> (r: Ratio)
        ensures
            r.wf(),
            r.parts() == suffix_ratio(
                normalized(x@, self.case_insensitive),
                normalized(y@, self.case_insensitive),
            ),
    {
        let x_chars = normalize_input(x, self.case_insensitive);
        let y_chars = normalize_input(y, self.case_insensitive);
        let m = x_chars.len();
        let n = y_chars.len();
        if m == 0 && n == 0 {
            return Ratio::one();
        }
        if m == 0 || n == 0 {
            return Ratio::zero();
        }
        let match_count = common_suffix_length(&x_chars, &y_chars);
        proof {
            lemma_run_witness(x_chars@, y_chars@, m as int, n as int);
        }
        let max_len = if m >= n { m } else { n };
        Ratio { num: match_count as u128, den: max_len as u128 }
    }
}

/// Suffix similarity does not depend on the order of its inputs.
pub proof fn law_suffix_symmetric(x: Seq<char>, y: Seq<char>)
    ensures suffix_ratio(x, y) == suffix_ratio(y, x),
{
    lemma_run_symmetric(x, y, x.len() as int, y.len() as int);
}

proof fn lemma_run_self(x: Seq<char>, a: int)
    requires 0 <= a <= x.len(),
    ensures run_ending(x, x, a, a) == a,
    decreases a,
{
    if a > 0 {
        lemma_run_self(x, a - 1);
    }
}

/// A sequence shares its whole length with itself: identical inputs score `1`.
pub proof fn law_suffix_identical(x: Seq<char>)
    ensures suffix_ratio(x, x).0 == suffix_ratio(x, x).1,
{
    lemma_run_self(x, x.len() as int);
}

} // verus!
