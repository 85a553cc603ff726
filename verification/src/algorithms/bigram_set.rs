//! Sets of string pairs, held as vectors without duplicates.
use vstd::prelude::*;

verus! {

broadcast use {vstd::set::group_set_axioms, vstd::seq_lib::seq_to_set_is_finite, vstd::seq::Seq::lemma_push_to_set_commute};

/// A pair of strings as characters.
pub type PairView = (Seq<char>, Seq<char>);

fn pair_eq(a: &(String, String), b: &(String, String)) -> (r: bool)
    ensures r == (a.deep_view() == b.deep_view()),
{
    let first = a.0 == b.0;
    let second = a.1 == b.1;
    first && second
}

/// Whether `items` holds a pair equal to `item`.
fn contains_pair(items: &Vec<(String, String)>, item: &(String, String)) -> (r: bool)
    ensures r == items.deep_view().contains(item.deep_view()),
{
    let mut i: usize = 0;
    while i < items.len()
        invariant
            i <= items.len(),
            forall|k: int| 0 <= k < i ==> items.deep_view()[k] != item.deep_view(),
        decreases items.len() - i,
    {
        if pair_eq(&items[i], item) {
            assert(items.deep_view()[i as int] == item.deep_view());
            return true;
        }
        i += 1;
    }
    false
}

/// The distinct pairs of `items`, in order of first appearance.
pub fn distinct_pairs(items: &Vec<(String, String)>) -> (r: Vec<(String, String)>)
    ensures
        r.deep_view().no_duplicates(),
        r.deep_view().to_set() == items.deep_view().to_set(),
{
    let mut out: Vec<(String, String)> = Vec::new();
    let mut i: usize = 0;
    while i < items.len()
        invariant
            i <= items.len(),
            out.deep_view().no_duplicates(),
            out.deep_view().to_set() == items.deep_view().take(i as int).to_set(),
        decreases items.len() - i,
    {
        let item = &items[i];
        let ghost before = out.deep_view();
        assert(items.deep_view().take(i as int + 1) =~= items.deep_view().take(i as int).push(item.deep_view()));
        assert(items.deep_view().take(i as int).push(item.deep_view()).to_set()
            =~= items.deep_view().take(i as int).to_set().insert(item.deep_view()));
        if !contains_pair(&out, item) {
            out.push((item.0.clone(), item.1.clone()));
            assert(out.deep_view() =~= before.push(item.deep_view()));
            assert(out.deep_view().to_set() =~= before.to_set().insert(item.deep_view()));
        } else {
            assert(before.to_set().contains(item.deep_view()));
            assert(before.to_set().insert(item.deep_view()) =~= before.to_set());
        }
        i += 1;
    }
    assert(items.deep_view().take(items.len() as int) =~= items.deep_view());
    out
}

/// The number of pairs of `xs` that `ys` also holds: with `xs` free of
/// duplicates, the size of the intersection of the two sets.
pub fn count_shared(xs: &Vec<(String, String)>, ys: &Vec<(String, String)>) -> (r: usize)
    requires xs.deep_view().no_duplicates(),
    ensures r == xs.deep_view().to_set().intersect(ys.deep_view().to_set()).len(),
{
    let ghost yset = ys.deep_view().to_set();
    let mut count: usize = 0;
    let mut i: usize = 0;
    assert(xs.deep_view().take(0).to_set().intersect(yset) =~= Set::empty());
    while i < xs.len()
        invariant
            i <= xs.len(),
            xs.deep_view().no_duplicates(),
            yset == ys.deep_view().to_set(),
            count == xs.deep_view().take(i as int).to_set().intersect(yset).len(),
            count <= i,
        decreases xs.len() - i,
    {
        let ghost xv = xs.deep_view();
        let ghost e = xv[i as int];
        let ghost prefix = xv.take(i as int);
        assert(xv.take(i as int + 1) =~= prefix.push(e));
        assert(prefix.push(e).to_set() =~= prefix.to_set().insert(e));
        assert(!prefix.to_set().contains(e)) by {
            if prefix.to_set().contains(e) {
                let k = choose|k: int| 0 <= k < prefix.len() && prefix[k] == e;
                assert(xv[k] == xv[i as int]);
            }
        }
        assert(xs@[i as int].deep_view() == e);
        if contains_pair(ys, &xs[i]) {
            assert(prefix.to_set().insert(e).intersect(yset) =~= prefix.to_set().intersect(yset).insert(e));
            count += 1;
        } else {
            assert(prefix.to_set().insert(e).intersect(yset) =~= prefix.to_set().intersect(yset));
        }
        i += 1;
    }
    assert(xs.deep_view().take(xs.len() as int) =~= xs.deep_view());
    count
}

} // verus!
