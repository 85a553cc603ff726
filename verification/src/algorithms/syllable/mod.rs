//! Syllable-bigram overlap similarity for drug names.
//!
//! Drug names carry strong pharmacological meaning in their syllabic
//! structure: shared suffixes like *-afil*, *-olol*, *-pril*, *-statin*
//! identify drug classes. This algorithm syllabifies each name via English
//! maximal-onset rules, extracts overlapping bigrams of consecutive
//! syllables, then computes a set-overlap metric (Dice, Jaccard, or Overlap
//! coefficient) on the bigram sets.
//!
//! A pair with no syllable bigrams (single-syllable words) falls back to
//! exact match (1 or 0).
pub mod syllabify;

use vstd::prelude::*;

use crate::algorithms::bigram_set::{count_shared, distinct_pairs, PairView};
use crate::algorithms::ratio::Ratio;
use crate::text::{normalized, str_to_lowercase};
use syllabify::{bigrams_of, syllabify_spec, syllable_bigrams};

verus! {

broadcast use {vstd::set::group_set_axioms, vstd::seq_lib::seq_to_set_is_finite};

/// Set-theoretic metric for syllable bigram overlap.
#[derive(Debug, Clone, Copy, PartialEq, Eq, Default)]
pub enum SyllableMetric {
    /// Dice coefficient: 2|A∩B| / (|A| + |B|).
    #[default]
    Dice,
    /// Jaccard index: |A∩B| / |A∪B|.
    Jaccard,
    /// Overlap coefficient: |A∩B| / min(|A|, |B|).
    Overlap,
}

/// Configuration for syllable-bigram overlap similarity.
#[derive(Debug, Clone, Copy)]
pub struct Syllable {
    pub case_insensitive: bool,
    pub metric: SyllableMetric,
}

/// The set of syllable bigrams of a word.
pub open spec fn bigram_set(word: Seq<char>) -> Set<PairView> {
    bigrams_of(syllabify_spec(word)).to_set()
}

/// The overlap of two sets under `metric`, as `(numerator, denominator)`;
/// a zero denominator gives `1`.
pub open spec fn set_ratio(x: Set<PairView>, y: Set<PairView>, metric: SyllableMetric) -> (int, int) {
    let i = x.intersect(y).len() as int;
    let (nx, ny) = (x.len() as int, y.len() as int);
    match metric {
        SyllableMetric::Dice => if nx + ny == 0 { (1, 1) } else { (2 * i, nx + ny) },
        SyllableMetric::Jaccard => if nx + ny - i == 0 { (1, 1) } else { (i, nx + ny - i) },
        SyllableMetric::Overlap => {
            let m = if nx <= ny { nx } else { ny };
            if m == 0 { (1, 1) } else { (i, m) }
        },
    }
}

/// Syllable similarity of two (normalized) words: the bigram-set overlap, or,
/// when neither word has a bigram, `1` for equal words and `0` otherwise.
pub open spec fn syllable_ratio(x: Seq<char>, y: Seq<char>, metric: SyllableMetric) -> (int, int) {
    if bigram_set(x).len() == 0 && bigram_set(y).len() == 0 {
        if x == y { (1, 1) } else { (0, 1) }
    } else {
        set_ratio(bigram_set(x), bigram_set(y), metric)
    }
}

proof fn lemma_intersect_le(x: Set<PairView>, y: Set<PairView>)
    requires x.finite(), y.finite(),
    ensures
        x.intersect(y).len() <= x.len(),
        x.intersect(y).len() <= y.len(),
{
    vstd::set_lib::lemma_len_intersect(x, y);
    assert(x.intersect(y) =~= y.intersect(x));
    vstd::set_lib::lemma_len_intersect(y, x);
}

/// Syllable similarity does not depend on the order of its inputs.
pub proof fn law_syllable_symmetric(x: Seq<char>, y: Seq<char>, metric: SyllableMetric)
    ensures syllable_ratio(x, y, metric) == syllable_ratio(y, x, metric),
{
    assert(bigram_set(x).intersect(bigram_set(y)) =~= bigram_set(y).intersect(bigram_set(x)));
}

/// A word is fully similar to itself.
pub proof fn law_syllable_identical(x: Seq<char>, metric: SyllableMetric)
    ensures syllable_ratio(x, x, metric).0 == syllable_ratio(x, x, metric).1,
{
    assert(bigram_set(x).intersect(bigram_set(x)) =~= bigram_set(x));
}

impl Syllable {
    pub fn new(case_insensitive: bool, metric: SyllableMetric) -> (r: Self)
        ensures
            r.case_insensitive == case_insensitive,
            r.metric == metric,
    {
        Self { case_insensitive, metric }
    }

    /// Syllable-bigram similarity of `x` and `y` after case normalization.
    pub fn similarity(&self, x: &str, y: &str) -> (r: Ratio)
        ensures
            r.wf(),
            r.parts() == syllable_ratio(
                normalized(x@, self.case_insensitive),
                normalized(y@, self.case_insensitive),
                self.metric,
            ),
    {
        let (xs, ys) = if self.case_insensitive {
            (str_to_lowercase(x), str_to_lowercase(y))
        } else {
            (x.to_owned(), y.to_owned())
        };
        let xb = distinct_pairs(&syllable_bigrams(xs.as_str()));
        let yb = distinct_pairs(&syllable_bigrams(ys.as_str()));
        let ghost xset = bigram_set(xs@);
        let ghost yset = bigram_set(ys@);
        proof {
            xb.deep_view().unique_seq_to_set();
            yb.deep_view().unique_seq_to_set();
            lemma_intersect_le(xset, yset);
        }
        if xb.len() == 0 && yb.len() == 0 {
            return if xs == ys { Ratio::one() } else { Ratio::zero() };
        }
        let shared = count_shared(&xb, &yb) as u128;
        let nx = xb.len() as u128;
        let ny = yb.len() as u128;
        match self.metric {
            SyllableMetric::Dice => {
                Ratio { num: 2 * shared, den: nx + ny }
            },
            SyllableMetric::Jaccard => {
                Ratio { num: shared, den: nx + ny - shared }
            },
            SyllableMetric::Overlap => {
                let m = if nx <= ny { nx } else { ny };
                if m == 0 { Ratio::one() } else { Ratio { num: shared, den: m } }
            },
        }
    }
}

} // verus!
