//! Longest common *substring* similarity: the length of the longest run of
//! contiguous characters shared by both inputs, normalized by the length of
//! the longer input.
use vstd::prelude::*;

use crate::algorithms::ratio::{max_nat, Ratio};
use crate::algorithms::runs::{lemma_run_maximal, lemma_run_witness, run_ending};
use crate::text::{normalize_input, normalized};

verus! {

/// Longest common substring similarity (contiguous runs), as opposed to the
/// longest common subsequence or the shared trailing run.
#[derive(Debug, Clone, Default)]
pub struct LCSubstring {
    /// Whether to perform case-insensitive comparison.
    pub case_insensitive: bool,
}

/// `x` and `y` share a contiguous run of length `k`.
pub open spec fn shares_substring(x: Seq<char>, y: Seq<char>, k: int) -> bool {
    exists|i: int, j: int|
        0 <= i && i + k <= x.len() && 0 <= j && j + k <= y.len()
            && #[trigger] x.subrange(i, i + k) == #[trigger] y.subrange(j, j + k)
}

/// `k` is the length of a longest common substring of `x` and `y`.
pub open spec fn is_longest_common_substring_len(x: Seq<char>, y: Seq<char>, k: int) -> bool {
    &&& shares_substring(x, y, k)
    &&& forall|k2: int| #[trigger] shares_substring(x, y, k2) ==> k2 <= k
}

/// The length of a longest common substring of `x` and `y`.
pub open spec fn longest_common_substring_len(x: Seq<char>, y: Seq<char>) -> int {
    choose|k: int| is_longest_common_substring_len(x, y, k)
}

/// Substring similarity as `(numerator, denominator)`: `1` when both inputs are
/// empty, `0` when exactly one is, and otherwise the longest common substring
/// length over the longer length.
pub open spec fn substring_ratio(x: Seq<char>, y: Seq<char>) -> (int, int) {
    if x.len() == 0 && y.len() == 0 {
        (1, 1)
    } else if x.len() == 0 || y.len() == 0 {
        (0, 1)
    } else {
        (longest_common_substring_len(x, y), max_nat(x.len() as int, y.len() as int))
    }
}

/// A longest length, once found, is the one that `longest_common_substring_len` names.
pub proof fn lemma_longest_unique(x: Seq<char>, y: Seq<char>, k: int)
    requires is_longest_common_substring_len(x, y, k),
    ensures longest_common_substring_len(x, y) == k,
{
    let c = longest_common_substring_len(x, y);
    assert(is_longest_common_substring_len(x, y, c));
    assert(c <= k);
    assert(k <= c);
}

/// Length of a longest run of contiguous characters shared by `x` and `y`.
pub fn longest_common_substring(x: &Vec<char>, y: &Vec<char>) -> (r: usize)
    ensures
        is_longest_common_substring_len(x@, y@, r as int),
{
    let m = x.len();
    let n = y.len();
    // prev[b] holds the run ending at (i, b + 1); row i = 0 is all zeros.
    let mut prev: Vec<usize> = vec![0usize; n];
    let mut longest: usize = 0;
    let ghost mut best_a: int = 0;
    let ghost mut best_b: int = 0;
    let mut i: usize = 0;
    while i < m
        invariant
            0 <= i <= m,
            m == x.len(),
            n == y.len(),
            prev.len() == n,
            forall|b: int| 0 <= b < n ==> #[trigger] prev@[b] == run_ending(x@, y@, i as int, b + 1),
            0 <= best_a <= m,
            0 <= best_b <= n,
            run_ending(x@, y@, best_a, best_b) == longest,
            forall|a: int, b: int| 0 <= a <= i && 0 <= b <= n ==> #[trigger] run_ending(x@, y@, a, b) <= longest,
        decreases m - i,
    {
        let mut cur: Vec<usize> = vec![0usize; n];
        let mut j: usize = 0;
        while j < n
            invariant
                0 <= i < m,
                0 <= j <= n,
                m == x.len(),
                n == y.len(),
                prev.len() == n,
                cur.len() == n,
                forall|b: int| 0 <= b < n ==> #[trigger] prev@[b] == run_ending(x@, y@, i as int, b + 1),
                forall|b: int| 0 <= b < j ==> #[trigger] cur@[b] == run_ending(x@, y@, i + 1, b + 1),
                0 <= best_a <= m,
                0 <= best_b <= n,
                run_ending(x@, y@, best_a, best_b) == longest,
                forall|a: int, b: int| 0 <= a <= i && 0 <= b <= n ==> #[trigger] run_ending(x@, y@, a, b) <= longest,
                forall|b: int| 0 <= b <= j ==> #[trigger] run_ending(x@, y@, i + 1, b) <= longest,
            decreases n - j,
        {
            proof {
                lemma_run_witness(x@, y@, i as int, j as int);
            }
            if x[i] == y[j] {
                let before = if j == 0 { 0 } else { prev[j - 1] };
                let v = before + 1;
                cur.set(j, v);
                if v > longest {
                    longest = v;
                    proof {
                        best_a = i + 1;
                        best_b = j + 1;
                    }
                }
            } else {
                cur.set(j, 0);
            }
            j += 1;
        }
        prev = cur;
        i += 1;
    }
    proof {
        let x_s = x@;
        let y_s = y@;
        lemma_run_witness(x_s, y_s, best_a, best_b);
        let k = longest as int;
        let wi = best_a - k;
        let wj = best_b - k;
        assert(x_s.subrange(wi, wi + k) == y_s.subrange(wj, wj + k));
        assert(shares_substring(x_s, y_s, k));
        assert forall|k2: int| #[trigger] shares_substring(x_s, y_s, k2) implies k2 <= k by {
            let (a, b) = choose|a: int, b: int|
                0 <= a && a + k2 <= x_s.len() && 0 <= b && b + k2 <= y_s.len()
                    && #[trigger] x_s.subrange(a, a + k2) == #[trigger] y_s.subrange(b, b + k2);
            if k2 > 0 {
                lemma_run_maximal(x_s, y_s, a + k2, b + k2, k2);
                assert(run_ending(x_s, y_s, a + k2, b + k2) <= longest);
            }
        }
    }
    longest
}

impl LCSubstring {
    pub fn new(case_insensitive: bool) -> (r: Self)
        ensures r.case_insensitive == case_insensitive,
    {
        LCSubstring { case_insensitive }
    }

    /// The substring similarity of `x` and `y` after case normalization.
    pub fn similarity(&self, x: &str, y: &str) -> (r: Ratio)
        ensures
            r.wf(),
            r.parts() == substring_ratio(
                normalized(x@, self.case_insensitive),
                normalized(y@, self.case_insensitive),
            ),
    {
        let x_chars = normalize_input(x, self.case_insensitive);
        let y_chars = normalize_input(y, self.case_insensitive);
        let m = x_chars.len();
        let n = y_chars.len();
        if m == 0 && n == 0 {
            return Ratio::one();
        }
        if m == 0 || n == 0 {
            return Ratio::zero();
        }
        let longest = longest_common_substring(&x_chars, &y_chars);
        proof {
            lemma_longest_unique(x_chars@, y_chars@, longest as int);
            let (a, b) = choose|a: int, b: int|
                0 <= a && a + longest <= m && 0 <= b && b + longest <= n
                    && #[trigger] x_chars@.subrange(a, a + longest) == #[trigger] y_chars@.subrange(b, b + longest);
        }
        let max_len = if m >= n { m } else { n };
        Ratio { num: longest as u128, den: max_len as u128 }
    }
}

/// Sharing a run is symmetric, so the longest shared run is too.
pub proof fn lemma_shares_symmetric(x: Seq<char>, y: Seq<char>, k: int)
    ensures shares_substring(x, y, k) == shares_substring(y, x, k),
{
    if shares_substring(x, y, k) {
        let (i, j) = choose|i: int, j: int|
            0 <= i && i + k <= x.len() && 0 <= j && j + k <= y.len()
                && #[trigger] x.subrange(i, i + k) == #[trigger] y.subrange(j, j + k);
        assert(y.subrange(j, j + k) == x.subrange(i, i + k));
    }
    if shares_substring(y, x, k) {
        let (i, j) = choose|i: int, j: int|
            0 <= i && i + k <= y.len() && 0 <= j && j + k <= x.len()
                && #[trigger] y.subrange(i, i + k) == #[trigger] x.subrange(j, j + k);
        assert(x.subrange(j, j + k) == y.subrange(i, i + k));
    }
}

/// Substring similarity does not depend on the order of its inputs.
pub proof fn law_substring_symmetric(x: Seq<char>, y: Seq<char>)
    ensures substring_ratio(x, y) == substring_ratio(y, x),
{
    if x.len() > 0 && y.len() > 0 {
        // A longest common substring exists: its length is bounded by |x|.
        let k = longest_common_substring_len(x, y);
        assert(shares_substring(x, y, 0)) by {
            let z: int = 0;
            assert(x.subrange(z, z + 0) =~= y.subrange(z, z + 0));
        }
        lemma_exists_longest(x, y);
        assert forall|k2: int| #[trigger] shares_substring(y, x, k2) implies k2 <= k by {
            lemma_shares_symmetric(x, y, k2);
        }
        lemma_shares_symmetric(x, y, k);
        assert(is_longest_common_substring_len(y, x, k));
        lemma_longest_unique(y, x, k);
    }
}

/// A sequence shares its whole length with itself: identical inputs score `1`.
pub proof fn law_substring_identical(x: Seq<char>)
    ensures substring_ratio(x, x).0 == substring_ratio(x, x).1,
{
    if x.len() > 0 {
        let n = x.len() as int;
        let z: int = 0;
        assert(x.subrange(z, z + n) == x.subrange(z, z + n));
        assert(shares_substring(x, x, n));
        assert forall|k2: int| #[trigger] shares_substring(x, x, k2) implies k2 <= n by {
            let (i, j) = choose|i: int, j: int|
                0 <= i && i + k2 <= x.len() && 0 <= j && j + k2 <= x.len()
                    && #[trigger] x.subrange(i, i + k2) == #[trigger] x.subrange(j, j + k2);
        }
        assert(is_longest_common_substring_len(x, x, n));
        lemma_longest_unique(x, x, n);
    }
}

/// Two sequences always have a longest common substring.
pub proof fn lemma_exists_longest(x: Seq<char>, y: Seq<char>)
    ensures
        is_longest_common_substring_len(x, y, longest_common_substring_len(x, y)),
{
    let k = longest_run_upto(x, y, x.len() as int);
    assert(is_longest_common_substring_len(x, y, k));
}

/// The longest shared run among lengths `0..=bound`; runs longer than `|x|` do not exist.
proof fn longest_run_upto(x: Seq<char>, y: Seq<char>, bound: int) -> (k: int)
    requires 0 <= bound <= x.len(),
    ensures
        0 <= k <= bound,
        shares_substring(x, y, k),
        forall|k2: int| k2 <= bound && #[trigger] shares_substring(x, y, k2) ==> k2 <= k,
        bound == x.len() ==> forall|k2: int| #[trigger] shares_substring(x, y, k2) ==> k2 <= k,
    decreases bound,
{
    if bound == 0 {
        let z: int = 0;
        assert(x.subrange(z, z + 0) =~= y.subrange(z, z + 0));
        assert(shares_substring(x, y, 0));
        0
    } else if shares_substring(x, y, bound) {
        bound
    } else {
        longest_run_upto(x, y, bound - 1)
    }
}

} // verus!
