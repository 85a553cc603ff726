//! Runs of equal characters shared by two sequences.
use vstd::prelude::*;

verus! {

/// Length of the longest common prefix of `x` and `y`.
pub open spec fn common_prefix_len(x: Seq<char>, y: Seq<char>) -> nat
    decreases x.len(),
{
    if x.len() == 0 || y.len() == 0 || x[0] != y[0] {
        0
    } else {
        1 + common_prefix_len(x.drop_first(), y.drop_first())
    }
}

/// Length of the longest common run of `x` and `y` that ends just before
/// position `a` of `x` and position `b` of `y`.
pub open spec fn run_ending(x: Seq<char>, y: Seq<char>, a: int, b: int) -> nat
    decreases a,
{
    if a <= 0 || b <= 0 || x[a - 1] != y[b - 1] {
        0
    } else {
        1 + run_ending(x, y, a - 1, b - 1)
    }
}

/// Length of the longest common suffix of `x` and `y`.
pub open spec fn common_suffix_len(x: Seq<char>, y: Seq<char>) -> nat {
    run_ending(x, y, x.len() as int, y.len() as int)
}

/// The common prefix is shared, and it cannot be extended.
pub proof fn lemma_common_prefix(x: Seq<char>, y: Seq<char>)
    ensures
        common_prefix_len(x, y) <= x.len(),
        common_prefix_len(x, y) <= y.len(),
        forall|i: int| 0 <= i < common_prefix_len(x, y) ==> x[i] == y[i],
        common_prefix_len(x, y) < x.len() && common_prefix_len(x, y) < y.len()
            ==> x[common_prefix_len(x, y) as int] != y[common_prefix_len(x, y) as int],
    decreases x.len(),
{
    if x.len() == 0 || y.len() == 0 || x[0] != y[0] {
    } else {
        lemma_common_prefix(x.drop_first(), y.drop_first());
        let k = common_prefix_len(x, y);
        assert forall|i: int| 0 <= i < k implies x[i] == y[i] by {
            if i > 0 {
                assert(x[i] == x.drop_first()[i - 1]);
                assert(y[i] == y.drop_first()[i - 1]);
            }
        }
    }
}

/// Unrolling the common prefix from position `i`.
pub proof fn lemma_common_prefix_skip(x: Seq<char>, y: Seq<char>, i: int)
    requires
        0 <= i <= x.len(),
        i <= y.len(),
        forall|j: int| 0 <= j < i ==> x[j] == y[j],
    ensures
        common_prefix_len(x, y) == i + common_prefix_len(x.skip(i), y.skip(i)),
    decreases i,
{
    if i > 0 {
        assert(x[0] == y[0]);
        let xs = x.drop_first();
        let ys = y.drop_first();
        lemma_common_prefix_skip(xs, ys, i - 1);
        assert(xs.skip(i - 1) =~= x.skip(i));
        assert(ys.skip(i - 1) =~= y.skip(i));
    } else {
        assert(x.skip(0) =~= x);
        assert(y.skip(0) =~= y);
    }
}

/// The run ending at `(a, b)` is a shared substring.
pub proof fn lemma_run_witness(x: Seq<char>, y: Seq<char>, a: int, b: int)
    requires
        0 <= a <= x.len(),
        0 <= b <= y.len(),
    ensures
        run_ending(x, y, a, b) <= a,
        run_ending(x, y, a, b) <= b,
        x.subrange(a - run_ending(x, y, a, b), a) =~= y.subrange(b - run_ending(x, y, a, b), b),
    decreases a,
{
    if a <= 0 || b <= 0 || x[a - 1] != y[b - 1] {
    } else {
        lemma_run_witness(x, y, a - 1, b - 1);
        let k = run_ending(x, y, a, b) as int;
        assert forall|t: int| 0 <= t < k implies #[trigger] x.subrange(a - k, a)[t] == y.subrange(b - k, b)[t] by {
            if t < k - 1 {
                assert(x.subrange(a - k, a)[t] == x.subrange(a - 1 - (k - 1), a - 1)[t]);
                assert(y.subrange(b - k, b)[t] == y.subrange(b - 1 - (k - 1), b - 1)[t]);
            }
        }
    }
}

/// No shared run ending at `(a, b)` is longer than `run_ending(x, y, a, b)`.
pub proof fn lemma_run_maximal(x: Seq<char>, y: Seq<char>, a: int, b: int, k: int)
    requires
        0 <= k <= a <= x.len(),
        k <= b <= y.len(),
        x.subrange(a - k, a) == y.subrange(b - k, b),
    ensures
        k <= run_ending(x, y, a, b),
    decreases k,
{
    if k > 0 {
        assert(x[a - 1] == x.subrange(a - k, a)[k - 1]);
        assert(y[b - 1] == y.subrange(b - k, b)[k - 1]);
        assert(x.subrange(a - 1 - (k - 1), a - 1) =~= x.subrange(a - k, a).take(k - 1));
        assert(y.subrange(b - 1 - (k - 1), b - 1) =~= y.subrange(b - k, b).take(k - 1));
        lemma_run_maximal(x, y, a - 1, b - 1, k - 1);
    }
}

/// Runs do not depend on which sequence is named first.
pub proof fn lemma_run_symmetric(x: Seq<char>, y: Seq<char>, a: int, b: int)
    ensures
        run_ending(x, y, a, b) == run_ending(y, x, b, a),
    decreases a,
{
    if a <= 0 || b <= 0 || x[a - 1] != y[b - 1] {
    } else {
        lemma_run_symmetric(x, y, a - 1, b - 1);
    }
}

/// Common prefixes do not depend on which sequence is named first.
pub proof fn lemma_common_prefix_symmetric(x: Seq<char>, y: Seq<char>)
    ensures
        common_prefix_len(x, y) == common_prefix_len(y, x),
    decreases x.len(),
{
    if x.len() == 0 || y.len() == 0 || x[0] != y[0] {
    } else {
        lemma_common_prefix_symmetric(x.drop_first(), y.drop_first());
    }
}

/// Counts the leading positions on which `x` and `y` agree.
pub fn common_prefix_length(x: &Vec<char>, y: &Vec<char>) -> (r: usize)
    ensures
        r == common_prefix_len(x@, y@),
{
    let mut i: usize = 0;
    while i < x.len() && i < y.len() && x[i] == y[i]
        invariant
            i <= x.len(),
            i <= y.len(),
            forall|j: int| 0 <= j < i ==> x@[j] == y@[j],
        decreases x.len() - i,
    {
        i += 1;
    }
    proof {
        lemma_common_prefix_skip(x@, y@, i as int);
    }
    i
}

/// Counts the trailing positions on which `x` and `y` agree.
pub fn common_suffix_length(x: &Vec<char>, y: &Vec<char>) -> (r: usize)
    ensures
        r == common_suffix_len(x@, y@),
{
    let mut k: usize = 0;
    while k < x.len() && k < y.len() && x[x.len() - 1 - k] == y[y.len() - 1 - k]
        invariant
            k <= x.len(),
            k <= y.len(),
            run_ending(x@, y@, x.len() as int, y.len() as int)
                == k + run_ending(x@, y@, x.len() - k, y.len() - k),
        decreases x.len() - k,
    {
        k += 1;
    }
    k
}

} // verus!
