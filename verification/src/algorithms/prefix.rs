//! Prefix similarity: how much of the beginning of two strings matches,
//! normalized by the length of the longer input.
use vstd::prelude::*;

use crate::algorithms::ratio::{max_nat, Ratio};
use crate::algorithms::runs::{common_prefix_len, common_prefix_length, lemma_common_prefix, lemma_common_prefix_symmetric};
use crate::text::{normalize_input, normalized};

verus! {

/// Configuration for the prefix similarity algorithm.
#[derive(Debug, Clone, Default)]
pub struct Prefix {
    /// Whether to perform case-insensitive comparison.
    pub case_insensitive: bool,
}

/// Prefix similarity of two character sequences, as `(numerator, denominator)`:
/// the common prefix length over the longer length, and `1` for two empty inputs.
pub open spec fn prefix_ratio(x: Seq<char>, y: Seq<char>) -> (int, int) {
    let max_len = max_nat(x.len() as int, y.len() as int);
    if max_len == 0 { (1, 1) } else { (common_prefix_len(x, y) as int, max_len) }
}

impl Prefix {
    pub fn new(case_insensitive: bool) -> (r: Self)
        ensures r.case_insensitive == case_insensitive,
    {
        Self { case_insensitive }
    }

    /// The prefix similarity of `x` and `y` after case normalization.
    pub fn similarity(&self, x: &str, y: &str) -> (r: Ratio)
        ensures
            r.wf(),
            r.parts() == prefix_ratio(
                normalized(x@, self.case_insensitive),
                normalized(y@, self.case_insensitive),
            ),
    {
        let x_chars = normalize_input(x, self.case_insensitive);
        let y_chars = normalize_input(y, self.case_insensitive);
        let max_len = if x_chars.len() >= y_chars.len() { x_chars.len() } else { y_chars.len() };
        if max_len == 0 {
            return Ratio::one();
        }
        let prefix_len = common_prefix_length(&x_chars, &y_chars);
        proof {
            lemma_common_prefix(x_chars@, y_chars@);
        }
        Ratio { num: prefix_len as u128, den: max_len as u128 }
    }
}

/// Prefix similarity does not depend on the order of its inputs.
pub proof fn law_prefix_symmetric(x: Seq<char>, y: Seq<char>)
    ensures prefix_ratio(x, y) == prefix_ratio(y, x),
{
    lemma_common_prefix_symmetric(x, y);
}

/// A sequence shares its whole length with itself: identical inputs score `1`.
pub proof fn law_prefix_identical(x: Seq<char>)
    ensures prefix_ratio(x, x).0 == prefix_ratio(x, x).1,
{
    lemma_common_prefix(x, x);
    if x.len() > 0 {
        assert(common_prefix_len(x, x) == x.len());
    }
}

} // verus!
