//! Splitting rows into a training and a test part before precomputation.
//!
//! Rows are cheap and precomputed score matrices are not, so the split is
//! made on row indices first. Rows fall into three strata by label
//! (positive, negative, unlabeled); the split can keep the strata's shares
//! in both parts, and can balance the training part by undersampling the
//! majority class.
use vstd::prelude::*;

use rand::rngs::StdRng;
use rand::seq::SliceRandom;

verus! {

broadcast use {
    vstd::set::group_set_axioms,
    vstd::seq_lib::seq_to_set_is_finite,
    vstd::seq::Seq::lemma_push_to_set_commute,
    vstd::seq_lib::group_to_multiset_ensures,
    vstd::multiset::group_multiset_axioms,
};

#[verifier::external_type_specification]
#[verifier::external_body]
pub struct ExStdRng(StdRng);

/// Calls `SliceRandom::shuffle` of `rand`, which permutes the slice in place
/// by swapping its elements. The contract claims that the result is a
/// permutation of the input; which one depends on the generator's state,
/// and is left unsaid.
#[verifier::external_body]
fn shuffle(v: &mut Vec<usize>, rng: &mut StdRng)
    ensures final(v)@.to_multiset() == old(v)@.to_multiset(),
{
    v.shuffle(rng)
}

/// The stratum of a row, by its label.
#[derive(Debug, Clone, Copy, PartialEq, Eq, Structural)]
pub enum LabelClass {
    /// Labelled at or above one half.
    Positive,
    /// Labelled below one half.
    Negative,
    Unlabeled,
}

/// The indices of the rows of stratum `c`.
pub open spec fn members(classes: Seq<LabelClass>, c: LabelClass) -> Set<usize> {
    Set::new(|i: usize| (i as int) < classes.len() && classes[i as int] == c)
}

/// All row indices.
pub open spec fn all_rows(n: int) -> Set<usize> {
    Set::new(|i: usize| (i as int) < n)
}

/// The training share of a part of `len` rows whose rounded fractional
/// share is `rounded`: at least one row and at most all but one, as far as
/// the part allows.
pub open spec fn train_size(len: int, rounded: int) -> int {
    let t = if rounded >= 1 { rounded } else { 1 };
    let cap = if len >= 1 { len - 1 } else { 0 };
    if t <= cap { t } else { cap }
}

/// The training share of a part of `len` rows, given for every part size
/// `k` the rounded product `rounded[k]` of `k` and the training fraction.
pub open spec fn cut_size(rounded: Seq<usize>, len: int) -> int {
    train_size(len, rounded[len] as int)
}

proof fn lemma_perm(a: Seq<usize>, b: Seq<usize>)
    requires a.to_multiset() == b.to_multiset(),
    ensures
        a.len() == b.len(),
        a.to_set() == b.to_set(),
        a.no_duplicates() ==> b.no_duplicates(),
{
    assert(a.to_set() =~= b.to_set()) by {
        assert forall|x: usize| a.contains(x) <==> b.contains(x) by {
            assert(a.contains(x) <==> a.to_multiset().count(x) > 0);
            assert(b.contains(x) <==> b.to_multiset().count(x) > 0);
        }
    }
    vstd::seq_lib::to_multiset_len(a);
    vstd::seq_lib::to_multiset_len(b);
    if a.no_duplicates() {
        a.lemma_multiset_has_no_duplicates();
        assert forall|x: usize| b.to_multiset().contains(x) implies b.to_multiset().count(x) == 1 by {}
        b.lemma_multiset_has_no_duplicates_conv();
    }
}

proof fn lemma_concat(a: Seq<usize>, b: Seq<usize>)
    ensures
        (a + b).to_set() == a.to_set() + b.to_set(),
        (a + b).no_duplicates() <==> (a.no_duplicates() && b.no_duplicates() && a.to_set().disjoint(b.to_set())),
{
    let ab = a + b;
    assert(ab.to_set() =~= a.to_set() + b.to_set()) by {
        assert forall|x: usize| ab.contains(x) <==> (a.contains(x) || b.contains(x)) by {
            if ab.contains(x) {
                let k = choose|k: int| 0 <= k < ab.len() && ab[k] == x;
                if k < a.len() {
                    assert(a[k] == x);
                } else {
                    assert(b[k - a.len()] == x);
                }
            }
            if a.contains(x) {
                let k = choose|k: int| 0 <= k < a.len() && a[k] == x;
                assert(ab[k] == x);
            }
            if b.contains(x) {
                let k = choose|k: int| 0 <= k < b.len() && b[k] == x;
                assert(ab[k + a.len()] == x);
            }
        }
    }
    if ab.no_duplicates() {
        assert forall|i: int, j: int| 0 <= i < a.len() && 0 <= j < a.len() && i != j implies a[i] != a[j] by {
            assert(ab[i] == a[i] && ab[j] == a[j]);
        }
        assert forall|i: int, j: int| 0 <= i < b.len() && 0 <= j < b.len() && i != j implies b[i] != b[j] by {
            assert(ab[i + a.len()] == b[i] && ab[j + a.len()] == b[j]);
        }
        assert forall|x: usize| !(a.to_set().contains(x) && b.to_set().contains(x)) by {
            if a.contains(x) && b.contains(x) {
                let i = choose|i: int| 0 <= i < a.len() && a[i] == x;
                let j = choose|j: int| 0 <= j < b.len() && b[j] == x;
                assert(ab[i] == ab[j + a.len()]);
            }
        }
    }
    if a.no_duplicates() && b.no_duplicates() && a.to_set().disjoint(b.to_set()) {
        assert forall|i: int, j: int| 0 <= i < ab.len() && 0 <= j < ab.len() && i != j implies ab[i] != ab[j] by {
            if i < a.len() && j < a.len() {
                assert(ab[i] == a[i]);
                assert(ab[j] == a[j]);
            } else if i >= a.len() && j >= a.len() {
                assert(ab[i] == b[i - a.len()]);
                assert(ab[j] == b[j - a.len()]);
            } else if i < a.len() {
                assert(ab[i] == a[i]);
                assert(ab[j] == b[j - a.len()]);
                assert(a.to_set().contains(a[i]));
                assert(b.to_set().contains(b[j - a.len()]));
            } else {
                assert(ab[j] == a[j]);
                assert(ab[i] == b[i - a.len()]);
                assert(a.to_set().contains(a[j]));
                assert(b.to_set().contains(b[i - a.len()]));
            }
        }
    }
}

/// A set of distinct indices has as many members as the sequence holds.
proof fn lemma_size(s: Seq<usize>)
    requires s.no_duplicates(),
    ensures s.to_set().len() == s.len(), s.to_set().finite(),
{
    s.unique_seq_to_set();
}

/// The index sets of the strata, in the form the proofs use.
proof fn lemma_members_disjoint(classes: Seq<LabelClass>)
    ensures
        members(classes, LabelClass::Positive).disjoint(members(classes, LabelClass::Negative)),
        members(classes, LabelClass::Positive).disjoint(members(classes, LabelClass::Unlabeled)),
        members(classes, LabelClass::Negative).disjoint(members(classes, LabelClass::Unlabeled)),
        members(classes, LabelClass::Positive) + members(classes, LabelClass::Negative)
            + members(classes, LabelClass::Unlabeled) == all_rows(classes.len() as int),
{
    assert(members(classes, LabelClass::Positive) + members(classes, LabelClass::Negative)
        + members(classes, LabelClass::Unlabeled) =~= all_rows(classes.len() as int));
}

/// The rows of stratum `c`, in index order.
fn stratum(classes: &Vec<LabelClass>, c: LabelClass) -> (r: Vec<usize>)
    ensures
        r@.no_duplicates(),
        r@.to_set() == members(classes@, c),
{
    let mut out: Vec<usize> = Vec::new();
    let mut i: usize = 0;
    while i < classes.len()
        invariant
            i <= classes.len(),
            out@.no_duplicates(),
            forall|k: int| 0 <= k < out@.len() ==> #[trigger] out@[k] < i,
            out@.to_set() == Set::new(|j: usize| j < i && classes@[j as int] == c),
        decreases classes.len() - i,
    {
        let ghost before = out@;
        if classes[i] == c {
            out.push(i);
            assert(out@ == before.push(i));
            assert forall|p: int, q: int| 0 <= p < out@.len() && 0 <= q < out@.len() && p != q implies out@[p] != out@[q] by {
                if p < before.len() && q < before.len() {
                } else if p < before.len() {
                    assert(before[p] < i);
                } else if q < before.len() {
                    assert(before[q] < i);
                }
            }
            assert(out@.to_set() =~= Set::new(|j: usize| j < i + 1 && classes@[j as int] == c));
        } else {
            assert(out@.to_set() =~= Set::new(|j: usize| j < i + 1 && classes@[j as int] == c));
        }
        i += 1;
    }
    assert(out@.to_set() =~= members(classes@, c));
    out
}

/// The indices `0..n`.
fn all_indices(n: usize) -> (r: Vec<usize>)
    ensures
        r@.no_duplicates(),
        r@.to_set() == all_rows(n as int),
        r@.len() == n,
{
    let mut out: Vec<usize> = Vec::new();
    let mut i: usize = 0;
    while i < n
        invariant
            i <= n,
            out@.len() == i,
            forall|k: int| 0 <= k < i ==> #[trigger] out@[k] == k,
        decreases n - i,
    {
        out.push(i);
        i += 1;
    }
    assert(out@.to_set() =~= all_rows(n as int)) by {
        assert forall|x: usize| (x as int) < n implies out@.contains(x) by {
            assert(out@[x as int] == x);
        }
    }
    out
}

/// Splits `part` into its first `train_size` elements and the rest.
fn cut(part: &Vec<usize>, rounded: &Vec<usize>) -> (r: (Vec<usize>, Vec<usize>))
    requires
        part@.no_duplicates(),
        part.len() < rounded.len(),
    ensures
        r.0@.len() == cut_size(rounded@, part.len() as int),
        r.0@ + r.1@ == part@,
{
    let len = part.len();
    let wanted = rounded[len];
    let at_least_one = if wanted >= 1 { wanted } else { 1 };
    let cap = if len >= 1 { len - 1 } else { 0 };
    let n_train = if at_least_one <= cap { at_least_one } else { cap };
    let mut first: Vec<usize> = Vec::new();
    let mut second: Vec<usize> = Vec::new();
    let mut i: usize = 0;
    while i < len
        invariant
            i <= len,
            len == part.len(),
            n_train <= len,
            i <= n_train ==> first@ == part@.take(i as int) && second@.len() == 0,
            i > n_train ==> first@ == part@.take(n_train as int)
                && second@ == part@.subrange(n_train as int, i as int),
        decreases len - i,
    {
        if i < n_train {
            first.push(part[i]);
            assert(part@.take(i as int + 1) =~= part@.take(i as int).push(part@[i as int]));
        } else {
            let ghost before = second@;
            second.push(part[i]);
            assert(part@.subrange(n_train as int, i as int + 1)
                =~= part@.subrange(n_train as int, i as int).push(part@[i as int]));
            if i == n_train {
                assert(before =~= part@.subrange(n_train as int, i as int));
            }
        }
        i += 1;
    }
    if len <= n_train {
        assert(second@ =~= part@.subrange(n_train as int, len as int));
    }
    assert(first@ + second@ =~= part@);
    (first, second)
}

fn concat(a: Vec<usize>, b: Vec<usize>) -> (r: Vec<usize>)
    ensures r@ == a@ + b@,
{
    let mut out = a;
    let ghost base = out@;
    let mut i: usize = 0;
    while i < b.len()
        invariant
            i <= b.len(),
            out@ == base + b@.take(i as int),
        decreases b.len() - i,
    {
        out.push(b[i]);
        assert(b@.take(i as int + 1) =~= b@.take(i as int).push(b@[i as int]));
        i += 1;
    }
    assert(b@.take(b.len() as int) =~= b@);
    out
}

/// The elements of `v` whose row is in stratum `c`, in order.
fn keep_class(v: &Vec<usize>, classes: &Vec<LabelClass>, c: LabelClass) -> (r: Vec<usize>)
    requires
        v@.no_duplicates(),
        forall|k: int| 0 <= k < v@.len() ==> #[trigger] v@[k] < classes.len(),
    ensures
        r@.no_duplicates(),
        r@.to_set() == v@.to_set().intersect(members(classes@, c)),
{
    let mut out: Vec<usize> = Vec::new();
    let mut i: usize = 0;
    while i < v.len()
        invariant
            i <= v.len(),
            v@.no_duplicates(),
            forall|k: int| 0 <= k < v@.len() ==> #[trigger] v@[k] < classes.len(),
            out@.no_duplicates(),
            out@.to_set() == v@.take(i as int).to_set().intersect(members(classes@, c)),
        decreases v.len() - i,
    {
        let x = v[i];
        let ghost before = out@;
        assert(v@.take(i as int + 1) =~= v@.take(i as int).push(x));
        assert(!v@.take(i as int).contains(x)) by {
            if v@.take(i as int).contains(x) {
                let k = choose|k: int| 0 <= k < i && v@.take(i as int)[k] == x;
                assert(v@[k] == v@[i as int]);
            }
        }
        if classes[x] == c {
            out.push(x);
            assert(out@ == before.push(x));
            assert(!before.contains(x)) by {
                if before.contains(x) {
                    assert(before.to_set().contains(x));
                }
            }
            assert(out@.no_duplicates()) by {
                assert forall|p: int, q: int| 0 <= p < out@.len() && 0 <= q < out@.len() && p != q implies out@[p] != out@[q] by {
                    if p == before.len() {
                        assert(before.contains(out@[q]));
                    } else if q == before.len() {
                        assert(before.contains(out@[p]));
                    }
                }
            }
            assert(out@.to_set() =~= v@.take(i as int + 1).to_set().intersect(members(classes@, c)));
        } else {
            assert(out@.to_set() =~= v@.take(i as int + 1).to_set().intersect(members(classes@, c)));
        }
        i += 1;
    }
    assert(v@.take(v.len() as int) =~= v@);
    out
}

/// Undersamples the majority class of `train` down to the size of the
/// minority class; unlabeled rows all stay.
pub fn balance_indices(classes: &Vec<LabelClass>, train: &Vec<usize>, rng: &mut StdRng) -> (r: Vec<usize>)
    requires
        train@.no_duplicates(),
        forall|k: int| 0 <= k < train@.len() ==> #[trigger] train@[k] < classes.len(),
    ensures
        r@.no_duplicates(),
        r@.to_set().subset_of(train@.to_set()),
        r@.to_set().intersect(members(classes@, LabelClass::Positive)).len()
            == r@.to_set().intersect(members(classes@, LabelClass::Negative)).len(),
        r@.to_set().intersect(members(classes@, LabelClass::Positive)).len() == {
            let p = train@.to_set().intersect(members(classes@, LabelClass::Positive)).len();
            let n = train@.to_set().intersect(members(classes@, LabelClass::Negative)).len();
            if p <= n { p } else { n }
        },
        r@.to_set().intersect(members(classes@, LabelClass::Unlabeled))
            == train@.to_set().intersect(members(classes@, LabelClass::Unlabeled)),
{
    let ghost pos_set = members(classes@, LabelClass::Positive);
    let ghost neg_set = members(classes@, LabelClass::Negative);
    let ghost unl_set = members(classes@, LabelClass::Unlabeled);
    let ghost tset = train@.to_set();
    proof {
        lemma_members_disjoint(classes@);
    }
    let mut pos = keep_class(train, classes, LabelClass::Positive);
    let mut neg = keep_class(train, classes, LabelClass::Negative);
    let unl = keep_class(train, classes, LabelClass::Unlabeled);
    proof {
        lemma_size(pos@);
        lemma_size(neg@);
    }
    let minority = if pos.len() <= neg.len() { pos.len() } else { neg.len() };
    let ghost pos0 = pos@;
    let ghost neg0 = neg@;
    shuffle(&mut pos, rng);
    proof { lemma_perm(pos0, pos@); }
    pos.truncate(minority);
    let ghost neg_before = neg@;
    shuffle(&mut neg, rng);
    proof { lemma_perm(neg0, neg@); }
    let ghost pos_shuffled = pos@;
    neg.truncate(minority);
    proof {
        // Truncation keeps a prefix: still distinct, still inside the stratum.
        lemma_prefix(pos0, pos@);
        lemma_prefix(neg0, neg@);
    }
    let ghost p_seq = pos@;
    let ghost n_seq = neg@;
    let ghost u_seq = unl@;
    proof {
        lemma_size(p_seq);
        lemma_size(n_seq);
        lemma_concat(p_seq, n_seq);
        lemma_concat(p_seq + n_seq, u_seq);
    }
    let joined = concat(pos, neg);
    let mut out = concat(joined, unl);
    let ghost before_shuffle = out@;
    shuffle(&mut out, rng);
    proof {
        lemma_perm(before_shuffle, out@);
        let s = out@.to_set();
        assert(s == p_seq.to_set() + n_seq.to_set() + u_seq.to_set());
        assert(s.intersect(pos_set) =~= p_seq.to_set());
        assert(s.intersect(neg_set) =~= n_seq.to_set());
        assert(s.intersect(unl_set) =~= u_seq.to_set());
    }
    out
}

/// A prefix of a permutation of distinct elements of a set stays distinct
/// and inside the set.
proof fn lemma_prefix(whole: Seq<usize>, prefix: Seq<usize>)
    requires
        exists|s: Seq<usize>| s.to_multiset() == whole.to_multiset() && prefix == s.take(prefix.len() as int) && prefix.len() <= s.len(),
        whole.no_duplicates(),
    ensures
        prefix.no_duplicates(),
        prefix.to_set().subset_of(whole.to_set()),
{
    let s = choose|s: Seq<usize>| s.to_multiset() == whole.to_multiset() && prefix == s.take(prefix.len() as int) && prefix.len() <= s.len();
    lemma_perm(whole, s);
    assert forall|i: int, j: int| 0 <= i < prefix.len() && 0 <= j < prefix.len() && i != j implies prefix[i] != prefix[j] by {
        assert(prefix[i] == s[i] && prefix[j] == s[j]);
    }
    assert forall|x: usize| prefix.to_set().contains(x) implies whole.to_set().contains(x) by {
        let k = choose|k: int| 0 <= k < prefix.len() && prefix[k] == x;
        assert(s[k] == x);
        assert(s.contains(x));
    }
}

/// There are `n` row indices below `n`.
proof fn lemma_all_rows_len(n: usize)
    ensures all_rows(n as int).len() == n, all_rows(n as int).finite(),
{
    let s = Seq::new(n as nat, |k: int| k as usize);
    assert(all_rows(n as int) =~= s.to_set()) by {
        assert forall|x: usize| all_rows(n as int).contains(x) implies s.contains(x) by {
            assert(s[x as int] == x);
        }
    }
    assert(s.no_duplicates());
    lemma_size(s);
}

/// Splits the rows, given each row's stratum, into training and test
/// indices.
///
/// `rounded[k]` is the number of training rows a part of `k` rows gets
/// before clamping: the rounded product of `k` and the training fraction.
/// Each part (each stratum with `stratify`, else all rows) is shuffled and
/// cut: at least one training row and at least one test row where the part
/// allows. With `balance`, the training part is then undersampled so that
/// both labelled classes have as many rows as the smaller one.
pub fn split_rows(
    classes: &Vec<LabelClass>,
    rounded: &Vec<usize>,
    stratify: bool,
    balance: bool,
    rng: &mut StdRng,
) -> (r: (Vec<usize>, Vec<usize>))
    requires
        rounded.len() == classes.len() + 1,
    ensures
        r.0@.no_duplicates(),
        r.1@.no_duplicates(),
        r.0@.to_set().disjoint(r.1@.to_set()),
        (r.0@.to_set() + r.1@.to_set()).subset_of(all_rows(classes.len() as int)),
        !balance ==> r.0@.to_set() + r.1@.to_set() == all_rows(classes.len() as int),
        stratify ==> forall|c: LabelClass| #[trigger] r.1@.to_set().intersect(members(classes@, c)).len()
            == members(classes@, c).len() - cut_size(rounded@, members(classes@, c).len() as int),
        !stratify ==> r.1@.len() == classes.len() - cut_size(rounded@, classes.len() as int),
        !balance && stratify ==> forall|c: LabelClass| #[trigger] r.0@.to_set().intersect(members(classes@, c)).len()
            == cut_size(rounded@, members(classes@, c).len() as int),
        !balance && !stratify ==> r.0@.len() == cut_size(rounded@, classes.len() as int),
        balance ==> {
            let rest = all_rows(classes.len() as int).difference(r.1@.to_set());
            let p = rest.intersect(members(classes@, LabelClass::Positive)).len();
            let n = rest.intersect(members(classes@, LabelClass::Negative)).len();
            &&& r.0@.to_set().subset_of(rest)
            &&& r.0@.to_set().intersect(members(classes@, LabelClass::Positive)).len() == if p <= n { p } else { n }
            &&& r.0@.to_set().intersect(members(classes@, LabelClass::Negative)).len() == if p <= n { p } else { n }
            &&& r.0@.to_set().intersect(members(classes@, LabelClass::Unlabeled))
                == rest.intersect(members(classes@, LabelClass::Unlabeled))
        },
{
    let n = classes.len();
    let ghost cl = classes@;
    let ghost pos_set = members(cl, LabelClass::Positive);
    let ghost neg_set = members(cl, LabelClass::Negative);
    let ghost unl_set = members(cl, LabelClass::Unlabeled);
    let ghost all = all_rows(n as int);
    proof {
        lemma_members_disjoint(cl);
    }
    let mut pos = stratum(classes, LabelClass::Positive);
    let mut neg = stratum(classes, LabelClass::Negative);
    let mut unl = stratum(classes, LabelClass::Unlabeled);
    let ghost (g0, g1, g2) = (pos@, neg@, unl@);
    shuffle(&mut pos, rng);
    shuffle(&mut neg, rng);
    shuffle(&mut unl, rng);
    proof {
        lemma_perm(g0, pos@);
        lemma_perm(g1, neg@);
        lemma_perm(g2, unl@);
    }
    let mut train: Vec<usize>;
    let mut test: Vec<usize>;
    if stratify {
        proof {
            lemma_size(pos@);
            lemma_size(neg@);
            lemma_size(unl@);
            vstd::set_lib::lemma_len_subset(pos_set, all);
            vstd::set_lib::lemma_len_subset(neg_set, all);
            vstd::set_lib::lemma_len_subset(unl_set, all);
            lemma_all_rows_len(n);
        }
        let (tp, ep) = cut(&pos, rounded);
        let (tn, en) = cut(&neg, rounded);
        let (tu, eu) = cut(&unl, rounded);
        let ghost (tp_s, ep_s, tn_s, en_s, tu_s, eu_s) = (tp@, ep@, tn@, en@, tu@, eu@);
        proof {
            lemma_concat(tp_s, ep_s);
            lemma_concat(tn_s, en_s);
            lemma_concat(tu_s, eu_s);
            lemma_size(tp_s);
            lemma_size(ep_s);
            lemma_size(tn_s);
            lemma_size(en_s);
            lemma_size(tu_s);
            lemma_size(eu_s);
            lemma_concat(tp_s, tn_s);
            lemma_concat(tp_s + tn_s, tu_s);
            lemma_concat(ep_s, en_s);
            lemma_concat(ep_s + en_s, eu_s);
        }
        let tr = concat(concat(tp, tn), tu);
        let te = concat(concat(ep, en), eu);
        train = tr;
        test = te;
        let ghost (h0, h1) = (train@, test@);
        shuffle(&mut train, rng);
        shuffle(&mut test, rng);
        proof {
            lemma_perm(h0, train@);
            lemma_perm(h1, test@);
            let ts = train@.to_set();
            let es = test@.to_set();
            assert(ts == tp_s.to_set() + tn_s.to_set() + tu_s.to_set());
            assert(es == ep_s.to_set() + en_s.to_set() + eu_s.to_set());
            assert(ts.intersect(pos_set) =~= tp_s.to_set());
            assert(ts.intersect(neg_set) =~= tn_s.to_set());
            assert(ts.intersect(unl_set) =~= tu_s.to_set());
            assert(es.intersect(pos_set) =~= ep_s.to_set());
            assert(es.intersect(neg_set) =~= en_s.to_set());
            assert(es.intersect(unl_set) =~= eu_s.to_set());
            assert(ts.disjoint(es));
            assert(ts + es =~= all);
            assert forall|c: LabelClass| #[trigger] es.intersect(members(cl, c)).len()
                == members(cl, c).len() - cut_size(rounded@, members(cl, c).len() as int) by {
                match c {
                    LabelClass::Positive => {},
                    LabelClass::Negative => {},
                    LabelClass::Unlabeled => {},
                }
            }
            assert forall|c: LabelClass| #[trigger] ts.intersect(members(cl, c)).len()
                == cut_size(rounded@, members(cl, c).len() as int) by {
                match c {
                    LabelClass::Positive => {},
                    LabelClass::Negative => {},
                    LabelClass::Unlabeled => {},
                }
            }
        }
    } else {
        let mut everything = all_indices(n);
        let ghost e0 = everything@;
        shuffle(&mut everything, rng);
        proof {
            lemma_perm(e0, everything@);
        }
        let (tr, te) = cut(&everything, rounded);
        proof {
            lemma_concat(tr@, te@);
            lemma_size(tr@);
            lemma_size(te@);
        }
        train = tr;
        test = te;
    }
    if balance {
        let ghost t0 = train@;
        proof {
            assert forall|k: int| 0 <= k < train@.len() implies #[trigger] train@[k] < classes.len() by {
                assert(train@.to_set().contains(train@[k]));
                assert(all.contains(train@[k]));
            }
        }
        let balanced = balance_indices(classes, &train, rng);
        proof {
            let rest = all.difference(test@.to_set());
            assert(rest =~= t0.to_set());
        }
        train = balanced;
    }
    (train, test)
}

} // verus!
