//! Character n-gram TF-IDF similarity.
//!
//! Each string is represented by the counts of its character n-grams. The
//! score is a TF-weighted Jaccard on the two n-gram multisets: the shared
//! TF mass (the weight of the smaller count of each shared gram) over the
//! total mass of both strings minus the shared mass. TF is the raw count, or
//! `1 + ln(1 + count)` with `sublinear_tf`.
use vstd::prelude::*;

use crate::algorithms::ngram::{counted_ngrams, lemma_chars_deep_view, ngrams_of, occurrences};
use crate::error::Error;
use crate::text::{normalize_input, normalized};

verus! {

/// Configuration for character n-gram TF-IDF similarity.
#[derive(Debug, Clone, Copy)]
pub struct CharTfIdf {
    /// N-gram size (e.g. 2 for bigrams, 3 for trigrams).
    pub n: usize,
    /// Apply sublinear TF scaling: weight = 1 + ln(1 + tf) instead of raw tf.
    pub sublinear_tf: bool,
    pub case_insensitive: bool,
}

/// The count recorded for gram `g` in `counts`, if it is listed.
pub open spec fn count_of(counts: Seq<(Vec<char>, usize)>, g: Seq<char>) -> Option<usize>
    decreases counts.len(),
{
    if counts.len() == 0 {
        None
    } else if counts[0].0@ == g {
        Some(counts[0].1)
    } else {
        count_of(counts.drop_first(), g)
    }
}

/// The gram counts of `chars`: each distinct window of `n` characters with
/// how often it occurs.
pub fn ngram_counts(chars: &Vec<char>, n: usize) -> (r: Vec<(Vec<char>, usize)>)
    requires n > 0,
    ensures
        r@.map_values(|p: (Vec<char>, usize)| p.0@).no_duplicates(),
        r@.map_values(|p: (Vec<char>, usize)| p.0@).to_set() == ngrams_of(chars@, n as int).to_set(),
        forall|k: int| 0 <= k < r@.len() ==>
            (#[trigger] r@[k]).1 == occurrences(ngrams_of(chars@, n as int), r@[k].0@),
{
    counted_ngrams(chars, n)
}

/// For each gram of `x_counts`, in order, the smaller of its two counts when
/// `y_counts` lists it too, and `None` when it does not.
pub fn shared_minimums(x_counts: &Vec<(Vec<char>, usize)>, y_counts: &Vec<(Vec<char>, usize)>) -> (r: Vec<Option<usize>>)
    ensures
        r@.len() == x_counts@.len(),
        forall|k: int| 0 <= k < r@.len() ==> #[trigger] r@[k] == match count_of(y_counts@, x_counts@[k].0@) {
            Some(cy) => Some(if x_counts@[k].1 <= cy { x_counts@[k].1 } else { cy }),
            None => None::<usize>,
        },
{
    let mut out: Vec<Option<usize>> = Vec::new();
    let mut k: usize = 0;
    while k < x_counts.len()
        invariant
            k <= x_counts.len(),
            out@.len() == k,
            forall|q: int| 0 <= q < k ==> #[trigger] out@[q] == match count_of(y_counts@, x_counts@[q].0@) {
                Some(cy) => Some(if x_counts@[q].1 <= cy { x_counts@[q].1 } else { cy }),
                None => None::<usize>,
            },
        decreases x_counts.len() - k,
    {
        let cx = x_counts[k].1;
        let found = lookup_count(y_counts, &x_counts[k].0);
        let entry = match found {
            Some(cy) => Some(if cx <= cy { cx } else { cy }),
            None => None,
        };
        out.push(entry);
        k += 1;
    }
    out
}

/// The count listed for gram `g`, if any.
fn lookup_count(counts: &Vec<(Vec<char>, usize)>, g: &Vec<char>) -> (r: Option<usize>)
    ensures r == count_of(counts@, g@),
{
    let mut i: usize = 0;
    assert(counts@.skip(0) =~= counts@);
    while i < counts.len()
        invariant
            i <= counts.len(),
            count_of(counts@, g@) == count_of(counts@.skip(i as int), g@),
        decreases counts.len() - i,
    {
        let key = &counts[i].0;
        let mut same = key.len() == g.len();
        let mut p: usize = 0;
        while same && p < key.len()
            invariant
                p <= key.len(),
                same ==> key.len() == g.len(),
                same ==> forall|q: int| 0 <= q < p ==> key@[q] == g@[q],
                !same ==> key@ != g@,
            decreases key.len() - p,
        {
            if key[p] != g[p] {
                same = false;
            }
            p += 1;
        }
        if same {
            assert(key@ =~= g@);
        }
        assert(counts@.skip(i as int)[0] == counts@[i as int]);
        assert(counts@.skip(i as int).drop_first() =~= counts@.skip(i as int + 1));
        if same {
            return Some(counts[i].1);
        }
        i += 1;
    }
    assert(counts@.skip(i as int).len() == 0);
    None
}

impl CharTfIdf {
    /// Checks that the n-gram size is positive.
    pub fn validate(&self) -> (r: Result<(), Error>)
        ensures
            r is Ok <==> self.n > 0,
            r is Err ==> r == Err::<(), Error>(Error::InvalidNGramSize(self.n)),
    {
        if self.n == 0 {
            return Err(Error::InvalidNGramSize(self.n));
        }
        Ok(())
    }

    /// A checked configuration: an n-gram size of zero is refused.
    pub fn try_new(n: usize, sublinear_tf: bool, case_insensitive: bool) -> (r: Result<Self, Error>)
        ensures
            r is Ok <==> n > 0,
            r matches Ok(c) ==> c.n == n && c.sublinear_tf == sublinear_tf && c.case_insensitive == case_insensitive,
            r is Err ==> r == Err::<Self, Error>(Error::InvalidNGramSize(n)),
    {
        let cfg = Self { n, sublinear_tf, case_insensitive };
        match cfg.validate() {
            Ok(()) => Ok(cfg),
            Err(e) => Err(e),
        }
    }

    /// The gram counts of `x` after case normalization.
    pub fn counts(&self, x: &str) -> (r: Vec<(Vec<char>, usize)>)
        requires self.n > 0,
        ensures
            r@.map_values(|p: (Vec<char>, usize)| p.0@).no_duplicates(),
            r@.map_values(|p: (Vec<char>, usize)| p.0@).to_set()
                == ngrams_of(normalized(x@, self.case_insensitive), self.n as int).to_set(),
            forall|k: int| 0 <= k < r@.len() ==>
                (#[trigger] r@[k]).1 == occurrences(ngrams_of(normalized(x@, self.case_insensitive), self.n as int), r@[k].0@),
    {
        let chars = normalize_input(x, self.case_insensitive);
        ngram_counts(&chars, self.n)
    }
}

} // verus!
