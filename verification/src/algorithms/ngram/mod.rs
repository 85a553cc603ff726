//! Character n-grams with configurable left/right space padding.
//!
//! The input is padded with `before_padding` spaces before and
//! `after_padding` spaces after, then cut into overlapping windows of `n`
//! characters. The grams are taken as a set (each distinct gram once) or
//! with their counts.
use vstd::prelude::*;

verus! {

broadcast use {vstd::set::group_set_axioms, vstd::seq_lib::seq_to_set_is_finite, vstd::seq::Seq::lemma_push_to_set_commute};

/// The deep view of a vector of characters is its view.
pub proof fn lemma_chars_deep_view(v: &Vec<char>)
    ensures v.deep_view() == v@,
{
    assert(v.deep_view() =~= v@);
}

/// `k` spaces.
pub open spec fn spaces(k: int) -> Seq<char> {
    Seq::new(if k > 0 { k as nat } else { 0 }, |i: int| ' ')
}

/// The input with `before` spaces in front and `after` spaces behind.
pub open spec fn padded(chars: Seq<char>, before: int, after: int) -> Seq<char> {
    spaces(before) + chars + spaces(after)
}

/// The overlapping windows of `n` characters, in order; none when `n` is 0
/// or longer than the input.
pub open spec fn ngrams_of(chars: Seq<char>, n: int) -> Seq<Seq<char>> {
    if n == 0 || chars.len() < n {
        seq![]
    } else {
        Seq::new((chars.len() - n + 1) as nat, |i: int| chars.subrange(i, i + n))
    }
}

/// How many times `g` occurs in `grams`.
pub open spec fn occurrences(grams: Seq<Seq<char>>, g: Seq<char>) -> nat
    decreases grams.len(),
{
    if grams.len() == 0 {
        0
    } else {
        occurrences(grams.drop_last(), g) + if grams.last() == g { 1nat } else { 0nat }
    }
}

fn push_spaces(out: &mut Vec<char>, k: usize)
    ensures final(out)@ == old(out)@ + spaces(k as int),
{
    let ghost base = out@;
    let mut i: usize = 0;
    while i < k
        invariant
            i <= k,
            out@ == base + spaces(i as int),
        decreases k - i,
    {
        out.push(' ');
        assert(spaces(i as int + 1) =~= spaces(i as int).push(' '));
        i += 1;
    }
}

/// The input with `before_padding` spaces in front and `after_padding` behind.
pub fn padded_chars(chars: &Vec<char>, before_padding: usize, after_padding: usize) -> (r: Vec<char>)
    ensures r@ == padded(chars@, before_padding as int, after_padding as int),
{
    let mut out: Vec<char> = Vec::new();
    push_spaces(&mut out, before_padding);
    let ghost head = out@;
    let mut i: usize = 0;
    while i < chars.len()
        invariant
            i <= chars.len(),
            out@ == head + chars@.take(i as int),
        decreases chars.len() - i,
    {
        out.push(chars[i]);
        assert(chars@.take(i as int + 1) =~= chars@.take(i as int).push(chars@[i as int]));
        i += 1;
    }
    assert(chars@.take(chars.len() as int) =~= chars@);
    push_spaces(&mut out, after_padding);
    assert(out@ =~= padded(chars@, before_padding as int, after_padding as int));
    out
}

fn copy_range(chars: &Vec<char>, from: usize, to: usize) -> (r: Vec<char>)
    requires from <= to <= chars.len(),
    ensures r@ == chars@.subrange(from as int, to as int),
{
    let mut out: Vec<char> = Vec::new();
    let mut p = from;
    while p < to
        invariant
            from <= p <= to,
            to <= chars.len(),
            out@ == chars@.subrange(from as int, p as int),
        decreases to - p,
    {
        out.push(chars[p]);
        assert(chars@.subrange(from as int, p as int + 1) =~= chars@.subrange(from as int, p as int).push(chars@[p as int]));
        p += 1;
    }
    out
}

/// The overlapping windows of `n` characters.
pub fn ngrams(chars: &Vec<char>, n: usize) -> (r: Vec<Vec<char>>)
    ensures r.deep_view() == ngrams_of(chars@, n as int),
{
    let mut out: Vec<Vec<char>> = Vec::new();
    if n == 0 || chars.len() < n {
        assert(out.deep_view() =~= ngrams_of(chars@, n as int));
        return out;
    }
    let count = chars.len() - n + 1;
    let mut i: usize = 0;
    while i < count
        invariant
            i <= count,
            count == chars.len() - n + 1,
            0 < n <= chars.len(),
            out.deep_view() =~= Seq::new(i as nat, |k: int| chars@.subrange(k, k + n)),
        decreases count - i,
    {
        let gram = copy_range(chars, i, i + n);
        proof {
            lemma_chars_deep_view(&gram);
        }
        let ghost before = out.deep_view();
        out.push(gram);
        assert(out.deep_view() =~= before.push(chars@.subrange(i as int, i + n)));
        i += 1;
    }
    out
}

fn gram_eq(a: &Vec<char>, b: &Vec<char>) -> (r: bool)
    ensures r == (a@ == b@),
{
    if a.len() != b.len() {
        return false;
    }
    let mut i: usize = 0;
    while i < a.len()
        invariant
            i <= a.len(),
            a.len() == b.len(),
            forall|k: int| 0 <= k < i ==> a@[k] == b@[k],
        decreases a.len() - i,
    {
        if a[i] != b[i] {
            return false;
        }
        i += 1;
    }
    assert(a@ =~= b@);
    true
}

/// The position in `grams` of a gram equal to `g`, if any.
fn find_gram(grams: &Vec<Vec<char>>, g: &Vec<char>) -> (r: Option<usize>)
    ensures
        r is None ==> !grams.deep_view().contains(g@),
        r matches Some(k) ==> k < grams.len() && grams.deep_view()[k as int] == g@,
{
    let mut i: usize = 0;
    while i < grams.len()
        invariant
            i <= grams.len(),
            forall|k: int| 0 <= k < i ==> grams.deep_view()[k] != g@,
        decreases grams.len() - i,
    {
        proof {
            lemma_chars_deep_view(&grams@[i as int]);
        }
        if gram_eq(&grams[i], g) {
            return Some(i);
        }
        i += 1;
    }
    None
}

/// The distinct grams, in order of first appearance.
pub fn unique_ngrams(chars: &Vec<char>, n: usize) -> (r: Vec<Vec<char>>)
    ensures
        r.deep_view().no_duplicates(),
        r.deep_view().to_set() == ngrams_of(chars@, n as int).to_set(),
{
    let all = ngrams(chars, n);
    let mut out: Vec<Vec<char>> = Vec::new();
    let mut i: usize = 0;
    while i < all.len()
        invariant
            i <= all.len(),
            out.deep_view().no_duplicates(),
            out.deep_view().to_set() == all.deep_view().take(i as int).to_set(),
        decreases all.len() - i,
    {
        let ghost before = out.deep_view();
        proof {
            lemma_chars_deep_view(&all@[i as int]);
        }
        assert(all.deep_view().take(i as int + 1) =~= all.deep_view().take(i as int).push(all@[i as int]@));
        match find_gram(&out, &all[i]) {
            None => {
                let copy = all[i].clone();
                proof {
                    lemma_chars_deep_view(&copy);
                }
                out.push(copy);
                assert(out.deep_view() =~= before.push(all@[i as int]@));
            },
            Some(k) => {
                assert(before.to_set().contains(all@[i as int]@));
                assert(before.to_set().insert(all@[i as int]@) =~= before.to_set());
            },
        }
        i += 1;
    }
    assert(all.deep_view().take(all.len() as int) =~= all.deep_view());
    out
}

/// The distinct grams with how often each occurs, in order of first appearance.
pub fn counted_ngrams(chars: &Vec<char>, n: usize) -> (r: Vec<(Vec<char>, usize)>)
    ensures
        r@.map_values(|p: (Vec<char>, usize)| p.0@).no_duplicates(),
        r@.map_values(|p: (Vec<char>, usize)| p.0@).to_set() == ngrams_of(chars@, n as int).to_set(),
        forall|k: int| 0 <= k < r@.len() ==>
            (#[trigger] r@[k]).1 == occurrences(ngrams_of(chars@, n as int), r@[k].0@),
{
    let all = ngrams(chars, n);
    let ghost grams_all = all.deep_view();
    let mut keys: Vec<Vec<char>> = Vec::new();
    let mut counts: Vec<usize> = Vec::new();
    let mut i: usize = 0;
    while i < all.len()
        invariant
            i <= all.len(),
            grams_all == all.deep_view(),
            keys.len() == counts.len(),
            keys.deep_view().no_duplicates(),
            keys.deep_view().to_set() == grams_all.take(i as int).to_set(),
            forall|k: int| 0 <= k < keys.len() ==> #[trigger] counts@[k] == occurrences(grams_all.take(i as int), keys.deep_view()[k]),
            forall|k: int| 0 <= k < keys.len() ==> #[trigger] counts@[k] <= i,
        decreases all.len() - i,
    {
        let ghost g = grams_all[i as int];
        let ghost prefix = grams_all.take(i as int);
        let ghost next = grams_all.take(i as int + 1);
        assert(next =~= prefix.push(g));
        assert(next.drop_last() =~= prefix);
        let ghost before = keys.deep_view();
        proof {
            lemma_chars_deep_view(&all@[i as int]);
        }
        assert(all@[i as int]@ == g);
        match find_gram(&keys, &all[i]) {
            None => {
                let copy = all[i].clone();
                proof {
                    lemma_chars_deep_view(&copy);
                }
                keys.push(copy);
                counts.push(1);
                assert(keys.deep_view() =~= before.push(g));
                proof {
                    assert(!prefix.to_set().contains(g));
                    lemma_occurrences_absent(prefix, g);
                }
                assert forall|k: int| 0 <= k < keys.len() implies #[trigger] counts@[k] == occurrences(next, keys.deep_view()[k]) by {
                    if k < keys.len() - 1 {
                        assert(keys.deep_view()[k] == before[k]);
                        assert(before[k] != g);
                    }
                }
            },
            Some(j) => {
                let c = counts[j];
                counts.set(j, c + 1);
                assert(before.to_set().contains(g));
                assert(before.to_set().insert(g) =~= before.to_set());
                assert forall|k: int| 0 <= k < keys.len() implies #[trigger] counts@[k] == occurrences(next, keys.deep_view()[k]) by {
                    if k != j {
                        assert(keys.deep_view()[k] != keys.deep_view()[j as int]);
                    }
                }
            },
        }
        i += 1;
    }
    assert(grams_all.take(all.len() as int) =~= grams_all);
    let mut out: Vec<(Vec<char>, usize)> = Vec::new();
    let mut k: usize = 0;
    while k < keys.len()
        invariant
            k <= keys.len(),
            keys.len() == counts.len(),
            out@.len() == k,
            forall|q: int| 0 <= q < k ==> (#[trigger] out@[q]).0@ == keys.deep_view()[q] && out@[q].1 == counts@[q],
        decreases keys.len() - k,
    {
        let copy = keys[k].clone();
        proof {
            lemma_chars_deep_view(&copy);
            lemma_chars_deep_view(&keys@[k as int]);
        }
        out.push((copy, counts[k]));
        k += 1;
    }
    assert(out@.map_values(|p: (Vec<char>, usize)| p.0@) =~= keys.deep_view());
    out
}

/// A gram that does not occur has no occurrences.
pub proof fn lemma_occurrences_absent(grams: Seq<Seq<char>>, g: Seq<char>)
    requires !grams.to_set().contains(g),
    ensures occurrences(grams, g) == 0,
    decreases grams.len(),
{
    if grams.len() > 0 {
        assert(grams.drop_last().push(grams.last()) =~= grams);
        assert(grams.to_set() == grams.drop_last().to_set().insert(grams.last()));
        lemma_occurrences_absent(grams.drop_last(), g);
    }
}

/// The number of grams of `xs` that `ys` also holds: with `xs` free of
/// duplicates, the size of the intersection of the two sets.
pub fn count_shared_grams(xs: &Vec<Vec<char>>, ys: &Vec<Vec<char>>) -> (r: usize)
    requires xs.deep_view().no_duplicates(),
    ensures r == xs.deep_view().to_set().intersect(ys.deep_view().to_set()).len(),
{
    let ghost yset = ys.deep_view().to_set();
    let mut count: usize = 0;
    let mut i: usize = 0;
    assert(xs.deep_view().take(0).to_set().intersect(yset) =~= Set::empty());
    while i < xs.len()
        invariant
            i <= xs.len(),
            xs.deep_view().no_duplicates(),
            yset == ys.deep_view().to_set(),
            count == xs.deep_view().take(i as int).to_set().intersect(yset).len(),
            count <= i,
        decreases xs.len() - i,
    {
        let ghost xv = xs.deep_view();
        let ghost e = xv[i as int];
        let ghost prefix = xv.take(i as int);
        assert(xv.take(i as int + 1) =~= prefix.push(e));
        assert(!prefix.to_set().contains(e)) by {
            if prefix.to_set().contains(e) {
                let k = choose|k: int| 0 <= k < prefix.len() && prefix[k] == e;
                assert(xv[k] == xv[i as int]);
            }
        }
        proof {
            lemma_chars_deep_view(&xs@[i as int]);
        }
        assert(xs@[i as int]@ == e);
        match find_gram(ys, &xs[i]) {
            Some(_) => {
                assert(prefix.to_set().insert(e).intersect(yset) =~= prefix.to_set().intersect(yset).insert(e));
                count += 1;
            },
            None => {
                assert(prefix.to_set().insert(e).intersect(yset) =~= prefix.to_set().intersect(yset));
            },
        }
        i += 1;
    }
    assert(xs.deep_view().take(xs.len() as int) =~= xs.deep_view());
    count
}

} // verus!
