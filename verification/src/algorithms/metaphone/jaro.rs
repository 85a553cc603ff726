//! Jaro similarity on character sequences, as exact counts.
use vstd::prelude::*;

use crate::algorithms::ratio::{max_nat, min_nat, Ratio};

verus! {

/// The counts from which the Jaro similarity
/// `(m / |a| + m / |b| + (m - t) / m) / 3` is formed, with `m` the matches
/// and `t` half the transpositions.
#[derive(Debug, Clone, Copy, PartialEq, Eq)]
pub struct JaroParts {
    pub matches: usize,
    pub half_transpositions: usize,
    pub len_a: usize,
    pub len_b: usize,
}

/// A Jaro-based score: either a fixed value, or the counts of a Jaro comparison.
#[derive(Debug, Clone, Copy, PartialEq, Eq)]
pub enum JaroScore {
    Fixed(Ratio),
    Parts(JaroParts),
}

/// How far from its own position a character may find its match.
pub open spec fn jaro_window(m: int, n: int) -> int {
    let w = max_nat(m, n) / 2;
    if w >= 1 { w - 1 } else { 0 }
}

/// The first position `j` in `[from, hi)` of `b` not yet taken whose letter is `c`.
pub open spec fn first_free(c: char, b: Seq<char>, taken: Seq<bool>, from: int, hi: int) -> Option<int>
    decreases hi - from,
{
    if from >= hi {
        None
    } else if !taken[from] && b[from] == c {
        Some(from)
    } else {
        first_free(c, b, taken, from + 1, hi)
    }
}

/// The positions of `b` searched for the match of `a[i]`: from `lo` to `hi`.
pub open spec fn jaro_lo(a: Seq<char>, b: Seq<char>, i: int) -> int {
    let w = jaro_window(a.len() as int, b.len() as int);
    if i >= w { i - w } else { 0 }
}

pub open spec fn jaro_hi(a: Seq<char>, b: Seq<char>, i: int) -> int {
    let w = jaro_window(a.len() as int, b.len() as int);
    min_nat(i + w + 1, b.len() as int)
}

/// The positions of `b` taken by the matches of `a[0..i]`, each letter of `a`
/// in turn taking the first free equal letter of `b` within the window.
pub open spec fn jaro_taken(a: Seq<char>, b: Seq<char>, i: int) -> Seq<bool>
    decreases i,
{
    if i <= 0 {
        Seq::new(b.len(), |j: int| false)
    } else {
        let taken = jaro_taken(a, b, i - 1);
        match jaro_pick_with(a, b, i - 1, taken) {
            Some(j) => taken.update(j, true),
            None => taken,
        }
    }
}

pub open spec fn jaro_pick_with(a: Seq<char>, b: Seq<char>, i: int, taken: Seq<bool>) -> Option<int> {
    first_free(a[i], b, taken, jaro_lo(a, b, i), jaro_hi(a, b, i))
}

/// The letters of `a[0..i]` that found a match, in order.
pub open spec fn jaro_matched_a(a: Seq<char>, b: Seq<char>, i: int) -> Seq<char>
    decreases i,
{
    if i <= 0 {
        seq![]
    } else {
        let prev = jaro_matched_a(a, b, i - 1);
        if jaro_pick_with(a, b, i - 1, jaro_taken(a, b, i - 1)) is Some {
            prev.push(a[i - 1])
        } else {
            prev
        }
    }
}

/// The letters of `b[0..j]` at taken positions, in order.
pub open spec fn taken_letters(b: Seq<char>, taken: Seq<bool>, j: int) -> Seq<char>
    decreases j,
{
    if j <= 0 {
        seq![]
    } else {
        let prev = taken_letters(b, taken, j - 1);
        if taken[j - 1] { prev.push(b[j - 1]) } else { prev }
    }
}

/// The number of positions below `k` on which `p` and `q` differ.
pub open spec fn mismatches(p: Seq<char>, q: Seq<char>, k: int) -> nat
    decreases k,
{
    if k <= 0 {
        0
    } else {
        mismatches(p, q, k - 1) + if p[k - 1] != q[k - 1] { 1nat } else { 0nat }
    }
}

/// The matched letters of `a` and of `b`, each in its own order.
pub open spec fn jaro_sides(a: Seq<char>, b: Seq<char>) -> (Seq<char>, Seq<char>) {
    let ma = jaro_matched_a(a, b, a.len() as int);
    let mb = taken_letters(b, jaro_taken(a, b, a.len() as int), b.len() as int);
    (ma, mb)
}

/// The Jaro score of `a` and `b`: `1` for two empty inputs, `0` when one is
/// empty or nothing matches, and otherwise the matches and half the
/// transpositions (matched letters out of order).
pub open spec fn jaro_spec(a: Seq<char>, b: Seq<char>) -> JaroScore {
    if a.len() == 0 && b.len() == 0 {
        JaroScore::Fixed(Ratio { num: 1, den: 1 })
    } else if a.len() == 0 || b.len() == 0 {
        JaroScore::Fixed(Ratio { num: 0, den: 1 })
    } else {
        let (ma, mb) = jaro_sides(a, b);
        if ma.len() == 0 {
            JaroScore::Fixed(Ratio { num: 0, den: 1 })
        } else {
            JaroScore::Parts(JaroParts {
                matches: ma.len() as usize,
                half_transpositions: (mismatches(ma, mb, min_nat(ma.len() as int, mb.len() as int)) / 2) as usize,
                len_a: a.len() as usize,
                len_b: b.len() as usize,
            })
        }
    }
}

/// The first free position found is free, holds `c`, and lies in `[from, hi)`.
proof fn lemma_first_free(c: char, b: Seq<char>, taken: Seq<bool>, from: int, hi: int)
    ensures
        first_free(c, b, taken, from, hi) matches Some(j) ==> from <= j < hi && !taken[j] && b[j] == c,
    decreases hi - from,
{
    if from < hi && !(!taken[from] && b[from] == c) {
        lemma_first_free(c, b, taken, from + 1, hi);
    }
}

/// How many positions below `j` are taken.
pub open spec fn taken_count(taken: Seq<bool>, j: int) -> nat
    decreases j,
{
    if j <= 0 {
        0
    } else {
        taken_count(taken, j - 1) + if taken[j - 1] { 1nat } else { 0nat }
    }
}

proof fn lemma_taken_count_update(taken: Seq<bool>, p: int, j: int)
    requires
        0 <= p < taken.len(),
        0 <= j <= taken.len(),
        !taken[p],
    ensures
        taken_count(taken.update(p, true), j) == taken_count(taken, j) + if p < j { 1nat } else { 0nat },
    decreases j,
{
    if j > 0 {
        lemma_taken_count_update(taken, p, j - 1);
    }
}

proof fn lemma_taken_letters_len(b: Seq<char>, taken: Seq<bool>, j: int)
    requires 0 <= j,
    ensures
        taken_letters(b, taken, j).len() == taken_count(taken, j),
        taken_count(taken, j) <= j,
    decreases j,
{
    if j > 0 {
        lemma_taken_letters_len(b, taken, j - 1);
    }
}

proof fn lemma_taken_count_none(n: int, j: int)
    requires 0 <= j <= n,
    ensures taken_count(Seq::new(n as nat, |k: int| false), j) == 0,
    decreases j,
{
    if j > 0 {
        lemma_taken_count_none(n, j - 1);
    }
}

/// Every matched letter of `a` holds its own position of `b`.
proof fn lemma_matches_take_positions(a: Seq<char>, b: Seq<char>, i: int)
    requires 0 <= i <= a.len(),
    ensures
        jaro_taken(a, b, i).len() == b.len(),
        jaro_matched_a(a, b, i).len() == taken_count(jaro_taken(a, b, i), b.len() as int),
        jaro_matched_a(a, b, i).len() <= i,
    decreases i,
{
    if i == 0 {
        lemma_taken_count_none(b.len() as int, b.len() as int);
    } else {
        lemma_matches_take_positions(a, b, i - 1);
        let taken = jaro_taken(a, b, i - 1);
        lemma_first_free(a[i - 1], b, taken, jaro_lo(a, b, i - 1), jaro_hi(a, b, i - 1));
        match jaro_pick_with(a, b, i - 1, taken) {
            Some(j) => {
                lemma_taken_count_update(taken, j, b.len() as int);
            },
            None => {},
        }
    }
}

/// The Jaro counts make a score in `[0, 1]`: there are at most as many
/// matches as letters on either side, and no more half-transpositions than
/// matches.
pub proof fn law_jaro_counts_bounded(a: Seq<char>, b: Seq<char>)
    requires
        a.len() <= usize::MAX,
        b.len() <= usize::MAX,
    ensures
        jaro_spec(a, b) matches JaroScore::Parts(p) ==> {
            &&& 0 < p.matches
            &&& p.matches <= p.len_a
            &&& p.matches <= p.len_b
            &&& p.half_transpositions <= p.matches
            &&& p.len_a == a.len()
            &&& p.len_b == b.len()
        },
        jaro_spec(a, b) matches JaroScore::Fixed(r) ==> r.wf(),
{
    lemma_matches_take_positions(a, b, a.len() as int);
    let (ma, mb) = jaro_sides(a, b);
    lemma_taken_letters_len(b, jaro_taken(a, b, a.len() as int), b.len() as int);
    lemma_mismatches_bounded(ma, mb, min_nat(ma.len() as int, mb.len() as int));
}

proof fn lemma_mismatches_bounded(p: Seq<char>, q: Seq<char>, k: int)
    requires 0 <= k,
    ensures mismatches(p, q, k) <= k,
    decreases k,
{
    if k > 0 {
        lemma_mismatches_bounded(p, q, k - 1);
    }
}

/// Finds the first free position of `b` in `[lo, hi)` holding `c`.
fn find_free(c: char, b: &Vec<char>, taken: &Vec<bool>, lo: usize, hi: usize) -> (r: Option<usize>)
    requires
        hi <= b.len(),
        taken.len() == b.len(),
    ensures
        r matches Some(j) ==> Some(j as int) == first_free(c, b@, taken@, lo as int, hi as int),
        r is None ==> first_free(c, b@, taken@, lo as int, hi as int) is None,
        r matches Some(j) ==> lo <= j < hi,
{
    let mut j = lo;
    while j < hi
        invariant
            lo <= j,
            hi <= b.len(),
            taken.len() == b.len(),
            first_free(c, b@, taken@, lo as int, hi as int) == first_free(c, b@, taken@, j as int, hi as int),
        decreases hi - j,
    {
        if !taken[j] && b[j] == c {
            return Some(j);
        }
        j += 1;
    }
    None
}

/// Jaro comparison of two character sequences.
pub fn jaro(a: &Vec<char>, b: &Vec<char>) -> (r: JaroScore)
    ensures
        r == jaro_spec(a@, b@),
{
    let m = a.len();
    let n = b.len();
    if m == 0 && n == 0 {
        return JaroScore::Fixed(Ratio::one());
    }
    if m == 0 || n == 0 {
        return JaroScore::Fixed(Ratio::zero());
    }
    let half = (if m >= n { m } else { n }) / 2;
    let window = if half >= 1 { half - 1 } else { 0 };
    let mut taken: Vec<bool> = vec![false; n];
    let mut matched_a: Vec<char> = Vec::new();
    let mut i: usize = 0;
    assert(taken@ =~= jaro_taken(a@, b@, 0));
    while i < m
        invariant
            i <= m,
            m == a.len(),
            n == b.len(),
            window == jaro_window(m as int, n as int),
            taken@ == jaro_taken(a@, b@, i as int),
            taken.len() == n,
            matched_a@ == jaro_matched_a(a@, b@, i as int),
            matched_a.len() <= i,
        decreases m - i,
    {
        let lo = if i >= window { i - window } else { 0 };
        let hi = if i < n && window < n - i { i + window + 1 } else { n };
        if let Some(j) = find_free(a[i], b, &taken, lo, hi) {
            taken.set(j, true);
            matched_a.push(a[i]);
        }
        i += 1;
    }
    let mut matched_b: Vec<char> = Vec::new();
    let mut j: usize = 0;
    while j < n
        invariant
            j <= n,
            n == b.len(),
            taken.len() == n,
            matched_b@ == taken_letters(b@, taken@, j as int),
            matched_b.len() <= j,
        decreases n - j,
    {
        if taken[j] {
            matched_b.push(b[j]);
        }
        j += 1;
    }
    let matches = matched_a.len();
    if matches == 0 {
        return JaroScore::Fixed(Ratio::zero());
    }
    let common = if matches <= matched_b.len() { matches } else { matched_b.len() };
    let mut transpositions: usize = 0;
    let mut k: usize = 0;
    while k < common
        invariant
            k <= common,
            common <= matched_a.len(),
            common <= matched_b.len(),
            transpositions == mismatches(matched_a@, matched_b@, k as int),
            transpositions <= k,
        decreases common - k,
    {
        if matched_a[k] != matched_b[k] {
            transpositions += 1;
        }
        k += 1;
    }
    JaroScore::Parts(JaroParts {
        matches,
        half_transpositions: transpositions / 2,
        len_a: m,
        len_b: n,
    })
}

/// Scanning from `from`, past positions that are all taken, the first free
/// position holding `c` is `k`.
proof fn lemma_first_free_at(c: char, b: Seq<char>, taken: Seq<bool>, from: int, k: int, hi: int)
    requires
        from <= k < hi,
        forall|j: int| from <= j < k ==> #[trigger] taken[j],
        !taken[k],
        b[k] == c,
    ensures first_free(c, b, taken, from, hi) == Some(k),
    decreases k - from,
{
    if from < k {
        lemma_first_free_at(c, b, taken, from + 1, k, hi);
    }
}

/// Matching a sequence against itself, the first `i` letters take exactly
/// the first `i` positions.
proof fn lemma_self_taken(a: Seq<char>, i: int)
    requires 0 <= i <= a.len(),
    ensures
        jaro_taken(a, a, i) == Seq::new(a.len(), |j: int| j < i),
        jaro_matched_a(a, a, i) == a.take(i),
    decreases i,
{
    if i == 0 {
        assert(jaro_taken(a, a, 0) =~= Seq::new(a.len(), |j: int| j < 0));
        assert(a.take(0) =~= seq![]);
    } else {
        let k = i - 1;
        lemma_self_taken(a, k);
        let taken = jaro_taken(a, a, k);
        lemma_first_free_at(a[k], a, taken, jaro_lo(a, a, k), k, jaro_hi(a, a, k));
        assert(jaro_pick_with(a, a, k, taken) == Some(k));
        assert(jaro_taken(a, a, i) =~= Seq::new(a.len(), |j: int| j < i));
        assert(a.take(i) =~= a.take(k).push(a[k]));
    }
}

proof fn lemma_taken_letters_all(b: Seq<char>, j: int)
    requires 0 <= j <= b.len(),
    ensures taken_letters(b, Seq::new(b.len(), |q: int| q < b.len()), j) == b.take(j),
    decreases j,
{
    if j == 0 {
        assert(b.take(0) =~= seq![]);
    } else {
        lemma_taken_letters_all(b, j - 1);
        assert(b.take(j) =~= b.take(j - 1).push(b[j - 1]));
    }
}

proof fn lemma_no_mismatches(p: Seq<char>, k: int)
    requires 0 <= k,
    ensures mismatches(p, p, k) == 0,
    decreases k,
{
    if k > 0 {
        lemma_no_mismatches(p, k - 1);
    }
}

/// A non-empty sequence matches itself completely, in order: every letter
/// matches and none is transposed.
pub proof fn law_jaro_identical(a: Seq<char>)
    requires a.len() > 0,
    ensures
        jaro_spec(a, a) == JaroScore::Parts(JaroParts {
            matches: a.len() as usize,
            half_transpositions: 0,
            len_a: a.len() as usize,
            len_b: a.len() as usize,
        }),
{
    let n = a.len() as int;
    lemma_self_taken(a, n);
    lemma_taken_letters_all(a, n);
    assert(a.take(n) =~= a);
    lemma_no_mismatches(a, n);
}

/// No free position in `[from, hi)` holds `c` when none of them holds it.
proof fn lemma_first_free_none(c: char, b: Seq<char>, taken: Seq<bool>, from: int, hi: int)
    requires forall|j: int| from <= j < hi ==> b[j] != c,
    ensures first_free(c, b, taken, from, hi) is None,
    decreases hi - from,
{
    if from < hi {
        lemma_first_free_none(c, b, taken, from + 1, hi);
    }
}

proof fn lemma_nothing_taken(a: Seq<char>, b: Seq<char>, i: int)
    requires
        0 <= i <= a.len(),
        forall|p: int, q: int| 0 <= p < a.len() && 0 <= q < b.len()
            && p - q <= jaro_window(a.len() as int, b.len() as int)
            && q - p <= jaro_window(a.len() as int, b.len() as int) ==> a[p] != b[q],
    ensures
        jaro_taken(a, b, i) == Seq::new(b.len(), |j: int| false),
        jaro_matched_a(a, b, i).len() == 0,
    decreases i,
{
    if i > 0 {
        let k = i - 1;
        lemma_nothing_taken(a, b, k);
        let w = jaro_window(a.len() as int, b.len() as int);
        let (lo, hi) = (jaro_lo(a, b, k), jaro_hi(a, b, k));
        assert forall|j: int| lo <= j < hi implies b[j] != a[k] by {
            assert(k - j <= w && j - k <= w);
        }
        lemma_first_free_none(a[k], b, jaro_taken(a, b, k), lo, hi);
    }
}

/// A Jaro match pairs `a[i]` with `b[j]` only when `|i - j|` is at most
/// `max(|a|, |b|) / 2 - 1` (at least 0): where no equal letters lie that
/// close, nothing matches and the score is 0. So two codes of length 3
/// match only on equal positions.
pub proof fn law_jaro_match_window(a: Seq<char>, b: Seq<char>)
    requires
        a.len() > 0,
        b.len() > 0,
        forall|i: int, j: int| 0 <= i < a.len() && 0 <= j < b.len() && ({
            let longer = if a.len() >= b.len() { a.len() as int } else { b.len() as int };
            let w = if longer / 2 >= 1 { longer / 2 - 1 } else { 0 };
            i - j <= w && j - i <= w
        }) ==> a[i] != b[j],
    ensures
        jaro_spec(a, b) == JaroScore::Fixed(Ratio { num: 0, den: 1 }),
{
    lemma_nothing_taken(a, b, a.len() as int);
}

} // verus!
