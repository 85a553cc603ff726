//! Maximal-onset syllabification for English and drug names.
use vstd::prelude::*;

use crate::text::{ascii_lower, chars_of, str_to_lowercase, string_from_chars, to_ascii_lowercase, unicode_lowercase};

verus! {

/// A vowel letter (`y` included), in either ASCII case.
pub open spec fn is_syllable_vowel(c: char) -> bool {
    let l = ascii_lower(c);
    l == 'a' || l == 'e' || l == 'i' || l == 'o' || l == 'u' || l == 'y'
}

/// The end of the run of vowels that starts at `i`.
pub open spec fn vowel_run_end(cs: Seq<char>, i: int) -> int
    decreases cs.len() - i,
{
    if 0 <= i < cs.len() && is_syllable_vowel(cs[i]) { vowel_run_end(cs, i + 1) } else { i }
}

pub proof fn lemma_vowel_run_end(cs: Seq<char>, i: int)
    requires 0 <= i <= cs.len(),
    ensures
        i <= vowel_run_end(cs, i) <= cs.len(),
        forall|k: int| i <= k < vowel_run_end(cs, i) ==> is_syllable_vowel(#[trigger] cs[k]),
        vowel_run_end(cs, i) < cs.len() ==> !is_syllable_vowel(cs[vowel_run_end(cs, i)]),
    decreases cs.len() - i,
{
    if i < cs.len() && is_syllable_vowel(cs[i]) {
        lemma_vowel_run_end(cs, i + 1);
    }
}

/// The vowel groups (nuclei) of `cs` from position `i` on, as `(start, end)`
/// pairs with `end` exclusive.
pub open spec fn nuclei_from(cs: Seq<char>, i: int) -> Seq<(int, int)>
    decreases cs.len() - i,
{
    if i < 0 || i >= cs.len() {
        seq![]
    } else if is_syllable_vowel(cs[i]) {
        let e = vowel_run_end(cs, i);
        proof {
            lemma_vowel_run_end(cs, i + 1);
        }
        seq![(i, e)] + nuclei_from(cs, e)
    } else {
        nuclei_from(cs, i + 1)
    }
}

/// The nuclei are in order, each non-empty and separated from the next by
/// at least one consonant.
pub open spec fn nuclei_ordered(cs: Seq<char>, nuclei: Seq<(int, int)>, from: int) -> bool {
    &&& forall|k: int| 0 <= k < nuclei.len() ==> from <= (#[trigger] nuclei[k]).0 < nuclei[k].1 <= cs.len()
    &&& forall|k: int| 0 <= k < nuclei.len() - 1 ==> #[trigger] nuclei[k].1 < nuclei[k + 1].0
}

pub proof fn lemma_nuclei_ordered(cs: Seq<char>, i: int)
    requires 0 <= i <= cs.len(),
    ensures nuclei_ordered(cs, nuclei_from(cs, i), i),
    decreases cs.len() - i,
{
    if i < cs.len() {
        if is_syllable_vowel(cs[i]) {
            let e = vowel_run_end(cs, i);
            lemma_vowel_run_end(cs, i);
            lemma_vowel_run_end(cs, i + 1);
            lemma_nuclei_ordered(cs, e);
            let rest = nuclei_from(cs, e);
            let all = seq![(i, e)] + rest;
            assert(all == nuclei_from(cs, i));
            if rest.len() > 0 {
                // The run ends on a consonant, so the next nucleus starts later.
                lemma_nuclei_ordered(cs, e + 1);
                assert(rest == nuclei_from(cs, e + 1));
            }
            assert forall|k: int| 0 <= k < all.len() - 1 implies #[trigger] all[k].1 < all[k + 1].0 by {
                if k > 0 {
                    assert(all[k] == rest[k - 1]);
                    assert(all[k + 1] == rest[k]);
                }
            }
            assert forall|k: int| 0 <= k < all.len() implies i <= #[trigger] all[k].0 < all[k].1 <= cs.len() by {
                if k > 0 {
                    assert(all[k] == rest[k - 1]);
                }
            }
        } else {
            lemma_nuclei_ordered(cs, i + 1);
        }
    }
}

/// Whether the three letters form a legal English onset.
pub open spec fn is_onset3(a: char, b: char, c: char) -> bool {
    ||| a == 's' && b == 't' && c == 'r'
    ||| a == 's' && b == 'p' && c == 'l'
    ||| a == 's' && b == 'p' && c == 'r'
    ||| a == 's' && b == 'c' && c == 'r'
    ||| a == 's' && b == 'h' && c == 'r'
    ||| a == 't' && b == 'h' && c == 'r'
}

/// Whether the two letters form a legal English onset.
pub open spec fn is_onset2(a: char, b: char) -> bool {
    ||| a == 'b' && (b == 'l' || b == 'r')
    ||| a == 'c' && (b == 'l' || b == 'r' || b == 'h')
    ||| a == 'd' && b == 'r'
    ||| a == 'f' && (b == 'l' || b == 'r')
    ||| a == 'g' && (b == 'l' || b == 'r' || b == 'n')
    ||| a == 'p' && (b == 'l' || b == 'r' || b == 'h' || b == 'n')
    ||| a == 's' && (b == 'c' || b == 'k' || b == 'l' || b == 'm' || b == 'n' || b == 'p' || b == 't'
        || b == 'w' || b == 'h')
    ||| a == 't' && (b == 'h' || b == 'r' || b == 'w' || b == 'z')
    ||| a == 'w' && (b == 'h' || b == 'r')
    ||| a == 'k' && (b == 'l' || b == 'r' || b == 'n')
}

/// How many consonants from the end of `cons` can legally begin an English
/// syllable (maximal onset principle): three for `str`, `spl`, `spr`, `scr`,
/// `shr`, `thr`; two for the listed two-letter clusters; otherwise one.
pub open spec fn onset_len(cons: Seq<char>) -> int {
    let n = cons.len() as int;
    if n == 0 {
        0
    } else if n >= 3 && is_onset3(cons[n - 3], cons[n - 2], cons[n - 1]) {
        3
    } else if n >= 2 && is_onset2(cons[n - 2], cons[n - 1]) {
        2
    } else {
        1
    }
}

/// The positions at which syllables start, followed by the length of `cs`:
/// the first syllable starts at 0, and between two nuclei the next syllable
/// takes the longest legal onset of the consonants in between.
pub open spec fn syllable_bounds(cs: Seq<char>, nuclei: Seq<(int, int)>) -> Seq<int> {
    seq![0int] + Seq::new((nuclei.len() - 1) as nat, |k: int| {
        let prev_end = nuclei[k].1;
        let curr_start = nuclei[k + 1].0;
        let b = curr_start - onset_len(cs.subrange(prev_end, curr_start));
        if b >= prev_end { b } else { prev_end }
    }) + seq![cs.len() as int]
}

/// Each syllable start lies between the end of the previous nucleus and the
/// start of its own, so the bounds rise from 0 to the length of `cs`.
pub proof fn lemma_bounds(cs: Seq<char>, nuclei: Seq<(int, int)>)
    requires
        nuclei.len() > 0,
        nuclei_ordered(cs, nuclei, 0),
    ensures
        syllable_bounds(cs, nuclei).len() == nuclei.len() + 1,
        syllable_bounds(cs, nuclei)[0] == 0,
        syllable_bounds(cs, nuclei)[nuclei.len() as int] == cs.len(),
        forall|q: int| 0 <= q <= nuclei.len() ==> 0 <= #[trigger] syllable_bounds(cs, nuclei)[q] <= cs.len(),
        forall|q: int| 0 <= q < nuclei.len() ==> #[trigger] syllable_bounds(cs, nuclei)[q] <= nuclei[q].0,
        forall|q: int| 0 < q <= nuclei.len() ==> nuclei[q - 1].1 <= #[trigger] syllable_bounds(cs, nuclei)[q],
        forall|q: int| 0 <= q < nuclei.len() ==>
            #[trigger] syllable_bounds(cs, nuclei)[q] <= syllable_bounds(cs, nuclei)[q + 1],
{
    let bounds = syllable_bounds(cs, nuclei);
    let k = nuclei.len() as int;
    let mid = Seq::new((k - 1) as nat, |t: int| {
        let prev_end = nuclei[t].1;
        let curr_start = nuclei[t + 1].0;
        let b = curr_start - onset_len(cs.subrange(prev_end, curr_start));
        if b >= prev_end { b } else { prev_end }
    });
    assert(bounds == seq![0int] + mid + seq![cs.len() as int]);
    assert(bounds[0] == 0);
    assert(bounds[k] == cs.len());
    assert forall|q: int| 0 < q < k implies nuclei[q - 1].1 <= #[trigger] bounds[q] <= nuclei[q].0 by {
        assert(bounds[q] == mid[q - 1]);
        assert(nuclei[q - 1].1 < nuclei[q - 1 + 1].0);
        let cons = cs.subrange(nuclei[q - 1].1, nuclei[q].0);
        assert(onset_len(cons) <= cons.len());
    }
    assert(nuclei[k - 1].1 <= cs.len());
    assert forall|q: int| 0 <= q <= k implies 0 <= #[trigger] bounds[q] <= cs.len() by {
        if 0 < q < k {
            assert(nuclei[q].0 <= cs.len());
            assert(0 <= nuclei[q - 1].1);
        }
    }
    assert forall|q: int| 0 < q <= k implies nuclei[q - 1].1 <= #[trigger] bounds[q] by {}
    assert forall|q: int| 0 <= q < k implies #[trigger] bounds[q] <= nuclei[q].0 by {
        assert(0 <= nuclei[q].0);
    }
    assert forall|q: int| 0 <= q < k implies #[trigger] bounds[q] <= bounds[q + 1] by {
        assert(bounds[q] <= nuclei[q].0);
        assert(nuclei[q + 1 - 1].1 <= bounds[q + 1]);
        assert(nuclei[q].0 < nuclei[q].1);
    }
}

/// The syllables of an already lower-cased word.
pub open spec fn syllables_of(cs: Seq<char>) -> Seq<Seq<char>> {
    let nuclei = nuclei_from(cs, 0);
    if cs.len() == 0 {
        seq![]
    } else if nuclei.len() == 0 {
        seq![cs]
    } else {
        let bounds = syllable_bounds(cs, nuclei);
        Seq::new(nuclei.len(), |k: int| cs.subrange(bounds[k], bounds[k + 1]))
            .filter(|s: Seq<char>| s.len() > 0)
    }
}

/// The syllables of a word, lower-cased.
pub open spec fn syllabify_spec(word: Seq<char>) -> Seq<Seq<char>> {
    syllables_of(unicode_lowercase(word))
}

fn is_vowel(c: char) -> (r: bool)
    ensures r == is_syllable_vowel(c),
{
    let l = to_ascii_lowercase(c);
    l == 'a' || l == 'e' || l == 'i' || l == 'o' || l == 'u' || l == 'y'
}

fn is_onset_three(a: char, b: char, c: char) -> (r: bool)
    ensures r == is_onset3(a, b, c),
{
    (a == 's' && b == 't' && c == 'r') || (a == 's' && b == 'p' && c == 'l')
        || (a == 's' && b == 'p' && c == 'r') || (a == 's' && b == 'c' && c == 'r')
        || (a == 's' && b == 'h' && c == 'r') || (a == 't' && b == 'h' && c == 'r')
}

fn is_onset_two(a: char, b: char) -> (r: bool)
    ensures r == is_onset2(a, b),
{
    (a == 'b' && (b == 'l' || b == 'r'))
        || (a == 'c' && (b == 'l' || b == 'r' || b == 'h'))
        || (a == 'd' && b == 'r')
        || (a == 'f' && (b == 'l' || b == 'r'))
        || (a == 'g' && (b == 'l' || b == 'r' || b == 'n'))
        || (a == 'p' && (b == 'l' || b == 'r' || b == 'h' || b == 'n'))
        || (a == 's' && (b == 'c' || b == 'k' || b == 'l' || b == 'm' || b == 'n' || b == 'p'
            || b == 't' || b == 'w' || b == 'h'))
        || (a == 't' && (b == 'h' || b == 'r' || b == 'w' || b == 'z'))
        || (a == 'w' && (b == 'h' || b == 'r'))
        || (a == 'k' && (b == 'l' || b == 'r' || b == 'n'))
}

/// Returns how many consonants from the end of `cs[from..to]` can legally
/// begin an English syllable.
fn maximal_onset(cs: &Vec<char>, from: usize, to: usize) -> (r: usize)
    requires from <= to <= cs.len(),
    ensures
        r == onset_len(cs@.subrange(from as int, to as int)),
        r <= to - from,
{
    let n = to - from;
    if n == 0 {
        return 0;
    }
    if n >= 3 && is_onset_three(cs[to - 3], cs[to - 2], cs[to - 1]) {
        return 3;
    }
    if n >= 2 && is_onset_two(cs[to - 2], cs[to - 1]) {
        return 2;
    }
    1
}

/// The vowel groups of `cs`.
fn find_nuclei(cs: &Vec<char>) -> (r: Vec<(usize, usize)>)
    ensures
        r@.len() == nuclei_from(cs@, 0).len(),
        forall|k: int| 0 <= k < r@.len() ==>
            (#[trigger] r@[k]).0 as int == nuclei_from(cs@, 0)[k].0
            && r@[k].1 as int == nuclei_from(cs@, 0)[k].1,
{
    let n = cs.len();
    let mut nuclei: Vec<(usize, usize)> = Vec::new();
    let ghost mut found: Seq<(int, int)> = seq![];
    let mut i: usize = 0;
    while i < n
        invariant
            i <= n,
            n == cs.len(),
            found + nuclei_from(cs@, i as int) == nuclei_from(cs@, 0),
            nuclei@.len() == found.len(),
            forall|k: int| 0 <= k < found.len() ==>
                (#[trigger] nuclei@[k]).0 as int == found[k].0 && nuclei@[k].1 as int == found[k].1,
        decreases n - i,
    {
        if is_vowel(cs[i]) {
            let start = i;
            proof {
                lemma_vowel_run_end(cs@, i as int);
            }
            while i < n && is_vowel(cs[i])
                invariant
                    start <= i <= n,
                    n == cs.len(),
                    vowel_run_end(cs@, start as int) == vowel_run_end(cs@, i as int),
                decreases n - i,
            {
                i += 1;
            }
            proof {
                let old_found = found;
                found = found.push((start as int, i as int));
                assert(nuclei_from(cs@, start as int) == seq![(start as int, i as int)] + nuclei_from(cs@, i as int));
                assert(found + nuclei_from(cs@, i as int) =~= old_found + nuclei_from(cs@, start as int));
            }
            nuclei.push((start, i));
        } else {
            i += 1;
        }
    }
    assert(found =~= nuclei_from(cs@, 0));
    nuclei
}

/// The non-empty pieces of `chars` between consecutive boundaries.
fn split_pieces(chars: &Vec<char>, boundaries: &Vec<usize>) -> (r: Vec<String>)
    requires
        boundaries.len() >= 1,
        forall|q: int| 0 <= q < boundaries@.len() ==> #[trigger] boundaries@[q] <= chars.len(),
        forall|q: int| 0 <= q < boundaries@.len() - 1 ==> #[trigger] boundaries@[q] <= boundaries@[q + 1],
    ensures
        r.deep_view() == Seq::new((boundaries@.len() - 1) as nat, |t: int|
            chars@.subrange(boundaries@[t] as int, boundaries@[t + 1] as int)).filter(|s: Seq<char>| s.len() > 0),
{
    let count = boundaries.len() - 1;
    let ghost pieces = Seq::new(count as nat, |t: int| chars@.subrange(boundaries@[t] as int, boundaries@[t + 1] as int));
    let ghost keep = |s: Seq<char>| s.len() > 0;
    let mut syllables: Vec<String> = Vec::new();
    let mut t: usize = 0;
    while t < count
        invariant
            t <= count,
            count == boundaries.len() - 1,
            forall|q: int| 0 <= q < boundaries@.len() ==> #[trigger] boundaries@[q] <= chars.len(),
            forall|q: int| 0 <= q < boundaries@.len() - 1 ==> #[trigger] boundaries@[q] <= boundaries@[q + 1],
            pieces == Seq::new(count as nat, |q: int| chars@.subrange(boundaries@[q] as int, boundaries@[q + 1] as int)),
            keep == (|s: Seq<char>| s.len() > 0),
            syllables.deep_view() == pieces.take(t as int).filter(keep),
        decreases count - t,
    {
        let from = boundaries[t];
        let to = boundaries[t + 1];
        let mut piece: Vec<char> = Vec::new();
        let mut p = from;
        while p < to
            invariant
                from <= p <= to,
                to <= chars.len(),
                piece@ == chars@.subrange(from as int, p as int),
            decreases to - p,
        {
            piece.push(chars[p]);
            assert(chars@.subrange(from as int, p as int + 1) =~= chars@.subrange(from as int, p as int).push(chars@[p as int]));
            p += 1;
        }
        proof {
            pieces.take(t as int).lemma_filter_push(pieces[t as int], keep);
            assert(pieces.take(t as int + 1) =~= pieces.take(t as int).push(pieces[t as int]));
        }
        if piece.len() > 0 {
            let ghost before = syllables.deep_view();
            syllables.push(string_from_chars(&piece));
            assert(syllables.deep_view() =~= before.push(piece@));
        }
        t += 1;
    }
    assert(pieces.take(count as int) =~= pieces);
    syllables
}

/// Maximal-onset syllabification.
///
/// 1. Identify vowel-cluster nuclei.
/// 2. Between two nuclei, split at the largest onset cluster the following
///    nucleus can legally take (CV, CCV, etc.).
/// 3. The remaining consonants attach to the coda of the preceding syllable.
///
/// Returns the syllables as (lower-cased) strings.
pub fn syllabify(word: &str) -> (r: Vec<String>)
    ensures r.deep_view() == syllabify_spec(word@),
{
    let lowered = str_to_lowercase(word);
    let chars = chars_of(lowered.as_str());
    let n = chars.len();
    let ghost cs = chars@;
    if n == 0 {
        let empty: Vec<String> = Vec::new();
        assert(empty.deep_view() =~= syllabify_spec(word@));
        return empty;
    }
    let nuclei = find_nuclei(&chars);
    let ghost spec_nuclei = nuclei_from(cs, 0);
    if nuclei.len() == 0 {
        let mut all: Vec<String> = Vec::new();
        all.push(string_from_chars(&chars));
        assert(all.deep_view() =~= syllabify_spec(word@));
        return all;
    }
    proof {
        lemma_nuclei_ordered(cs, 0);
    }
    let ghost bounds = syllable_bounds(cs, spec_nuclei);
    // Syllable starts, as computed: boundaries[k] for k < nuclei.len().
    let mut boundaries: Vec<usize> = Vec::new();
    boundaries.push(0);
    let mut k: usize = 1;
    while k < nuclei.len()
        invariant
            1 <= k <= nuclei.len(),
            n == chars.len(),
            cs == chars@,
            spec_nuclei == nuclei_from(cs, 0),
            bounds == syllable_bounds(cs, spec_nuclei),
            nuclei_ordered(cs, spec_nuclei, 0),
            nuclei@.len() == spec_nuclei.len(),
            forall|t: int| 0 <= t < nuclei@.len() ==>
                (#[trigger] nuclei@[t]).0 as int == spec_nuclei[t].0 && nuclei@[t].1 as int == spec_nuclei[t].1,
            boundaries@.len() == k,
            forall|t: int| 0 <= t < k ==> #[trigger] boundaries@[t] as int == bounds[t],
        decreases nuclei.len() - k,
    {
        let prev_end = nuclei[k - 1].1;
        let curr_start = nuclei[k].0;
        assert(nuclei@[k - 1].1 < nuclei@[k as int - 1 + 1].0);
        let onset = maximal_onset(&chars, prev_end, curr_start);
        let boundary = curr_start - onset;
        let b = if boundary >= prev_end { boundary } else { prev_end };
        boundaries.push(b);
        k += 1;
    }
    boundaries.push(n);
    assert forall|t: int| 0 <= t <= nuclei.len() implies #[trigger] boundaries@[t] as int == bounds[t] by {}
    proof {
        lemma_bounds(cs, spec_nuclei);
    }
    proof {
        assert forall|q: int| 0 <= q < nuclei@.len() implies #[trigger] boundaries@[q] <= boundaries@[q + 1] by {}
    }
    let syllables = split_pieces(&chars, &boundaries);
    assert(Seq::new((boundaries@.len() - 1) as nat, |t: int| cs.subrange(boundaries@[t] as int, boundaries@[t + 1] as int))
        =~= Seq::new(spec_nuclei.len(), |t: int| cs.subrange(bounds[t], bounds[t + 1])));
    syllables
}

/// The pairs of consecutive syllables.
pub open spec fn bigrams_of(sylls: Seq<Seq<char>>) -> Seq<(Seq<char>, Seq<char>)> {
    Seq::new(if sylls.len() == 0 { 0 } else { (sylls.len() - 1) as nat }, |k: int| (sylls[k], sylls[k + 1]))
}

/// The syllables joined back together.
pub open spec fn joined(parts: Seq<Seq<char>>) -> Seq<char>
    decreases parts.len(),
{
    if parts.len() == 0 { seq![] } else { joined(parts.drop_last()) + parts.last() }
}

proof fn lemma_joined_filter_nonempty(parts: Seq<Seq<char>>)
    ensures joined(parts.filter(|s: Seq<char>| s.len() > 0)) == joined(parts),
    decreases parts.len(),
{
    reveal(Seq::filter);
    let keep = |s: Seq<char>| s.len() > 0;
    if parts.len() > 0 {
        lemma_joined_filter_nonempty(parts.drop_last());
        let rest = parts.drop_last().filter(keep);
        if keep(parts.last()) {
            assert(rest.push(parts.last()).drop_last() =~= rest);
        } else {
            assert(parts.last() =~= seq![]);
            assert(joined(parts) =~= joined(parts.drop_last()));
        }
    }
}

proof fn lemma_joined_pieces(cs: Seq<char>, bounds: Seq<int>, k: int)
    requires
        0 <= k < bounds.len(),
        forall|q: int| 0 <= q < bounds.len() ==> 0 <= #[trigger] bounds[q] <= cs.len(),
        forall|q: int| 0 <= q < bounds.len() - 1 ==> #[trigger] bounds[q] <= bounds[q + 1],
    ensures
        joined(Seq::new(k as nat, |t: int| cs.subrange(bounds[t], bounds[t + 1])))
            == cs.subrange(bounds[0], bounds[k]),
    decreases k,
{
    let pieces = Seq::new(k as nat, |t: int| cs.subrange(bounds[t], bounds[t + 1]));
    if k == 0 {
        assert(cs.subrange(bounds[0], bounds[0]) =~= seq![]);
    } else {
        lemma_joined_pieces(cs, bounds, k - 1);
        assert(pieces.drop_last() =~= Seq::new((k - 1) as nat, |t: int| cs.subrange(bounds[t], bounds[t + 1])));
        assert(bounds[0] <= bounds[k - 1]) by {
            lemma_bounds_monotone(bounds, 0, k - 1);
        }
        assert(cs.subrange(bounds[0], bounds[k - 1]) + cs.subrange(bounds[k - 1], bounds[k])
            =~= cs.subrange(bounds[0], bounds[k]));
    }
}

proof fn lemma_bounds_monotone(bounds: Seq<int>, i: int, j: int)
    requires
        0 <= i <= j < bounds.len(),
        forall|q: int| 0 <= q < bounds.len() - 1 ==> #[trigger] bounds[q] <= bounds[q + 1],
    ensures bounds[i] <= bounds[j],
    decreases j - i,
{
    if i < j {
        lemma_bounds_monotone(bounds, i, j - 1);
        assert(bounds[j - 1] <= bounds[j - 1 + 1]);
    }
}

/// Syllabification only cuts: joining the syllables gives back the
/// (lower-cased) word, and no syllable is empty.
pub proof fn law_syllables_cover_word(word: Seq<char>)
    ensures
        joined(syllabify_spec(word)) == unicode_lowercase(word),
        forall|k: int| 0 <= k < syllabify_spec(word).len() ==> (#[trigger] syllabify_spec(word)[k]).len() > 0,
{
    broadcast use vstd::seq_lib::group_filter_ensures;
    let cs = unicode_lowercase(word);
    let nuclei = nuclei_from(cs, 0);
    if cs.len() == 0 {
        assert(joined(seq![]) =~= cs);
    } else if nuclei.len() == 0 {
        let one = seq![cs];
        assert(one.drop_last() =~= Seq::<Seq<char>>::empty());
        assert(joined(one.drop_last()) =~= Seq::<char>::empty());
        assert(one.last() == cs);
        assert(joined(one) =~= cs);
    } else {
        lemma_nuclei_ordered(cs, 0);
        lemma_bounds(cs, nuclei);
        let bounds = syllable_bounds(cs, nuclei);
        let pieces = Seq::new(nuclei.len(), |t: int| cs.subrange(bounds[t], bounds[t + 1]));
        lemma_joined_filter_nonempty(pieces);
        lemma_joined_pieces(cs, bounds, nuclei.len() as int);
        assert(cs.subrange(0, cs.len() as int) =~= cs);
        let keep = |s: Seq<char>| s.len() > 0;
        assert forall|k: int| 0 <= k < pieces.filter(keep).len() implies (#[trigger] pieces.filter(keep)[k]).len() > 0 by {
            assert(keep(pieces.filter(keep)[k]));
        }
    }
}

proof fn lemma_filter_keeps_all(pieces: Seq<Seq<char>>, i: int)
    requires
        0 <= i <= pieces.len(),
        forall|k: int| 0 <= k < pieces.len() ==> (#[trigger] pieces[k]).len() > 0,
    ensures pieces.take(i).filter(|s: Seq<char>| s.len() > 0) == pieces.take(i),
    decreases i,
{
    let keep = |s: Seq<char>| s.len() > 0;
    if i == 0 {
        assert(pieces.take(0) =~= Seq::<Seq<char>>::empty());
        assert(pieces.take(0).filter(keep) =~= Seq::<Seq<char>>::empty()) by {
            broadcast use vstd::seq_lib::group_filter_ensures;
        }
    } else {
        lemma_filter_keeps_all(pieces, i - 1);
        pieces.take(i - 1).lemma_filter_push(pieces[i - 1], keep);
        assert(pieces.take(i) =~= pieces.take(i - 1).push(pieces[i - 1]));
    }
}

/// The syllables of a lower-cased word with vowels are its pieces between
/// consecutive bounds, none of them dropped.
proof fn lemma_syllables_are_pieces(cs: Seq<char>)
    requires nuclei_from(cs, 0).len() > 0,
    ensures
        syllables_of(cs).len() == nuclei_from(cs, 0).len(),
        forall|k: int| 0 <= k < nuclei_from(cs, 0).len() ==> #[trigger] syllables_of(cs)[k]
            == cs.subrange(syllable_bounds(cs, nuclei_from(cs, 0))[k], syllable_bounds(cs, nuclei_from(cs, 0))[k + 1]),
{
    let n = nuclei_from(cs, 0);
    lemma_nuclei_ordered(cs, 0);
    lemma_bounds(cs, n);
    let b = syllable_bounds(cs, n);
    let pieces = Seq::new(n.len(), |t: int| cs.subrange(b[t], b[t + 1]));
    assert forall|k: int| 0 <= k < pieces.len() implies (#[trigger] pieces[k]).len() > 0 by {
        assert(b[k] <= n[k].0);
        assert(n[k + 1 - 1].1 <= b[k + 1]);
        assert(n[k].0 < n[k].1);
    }
    lemma_filter_keeps_all(pieces, pieces.len() as int);
    assert(pieces.take(pieces.len() as int) =~= pieces);
    assert(cs.len() > 0);
    assert(syllables_of(cs) == pieces.filter(|s: Seq<char>| s.len() > 0));
}

/// A word has one syllable per vowel run (a vowel group, `y` counted as a
/// vowel): syllable `k` holds run `k` whole and reaches neither the run
/// before nor the run after it. A word without a vowel is one syllable, and
/// the empty word has none.
pub proof fn law_syllable_per_vowel_run(word: Seq<char>)
    ensures
        unicode_lowercase(word).len() == 0 ==> syllabify_spec(word).len() == 0,
        unicode_lowercase(word).len() > 0 && nuclei_from(unicode_lowercase(word), 0).len() == 0
            ==> syllabify_spec(word) == seq![unicode_lowercase(word)],
        nuclei_from(unicode_lowercase(word), 0).len() > 0 ==> {
            let cs = unicode_lowercase(word);
            let n = nuclei_from(cs, 0);
            let b = syllable_bounds(cs, n);
            &&& syllabify_spec(word).len() == n.len()
            &&& forall|k: int| 0 <= k < n.len() ==> #[trigger] syllabify_spec(word)[k] == cs.subrange(b[k], b[k + 1])
            &&& forall|k: int| 0 <= k < n.len() ==> b[k] <= (#[trigger] n[k]).0 && n[k].1 <= b[k + 1]
            &&& forall|k: int| 0 < k < n.len() ==> n[k - 1].1 <= #[trigger] b[k]
            &&& forall|k: int| 0 <= k < n.len() - 1 ==> #[trigger] b[k + 1] <= n[k + 1].0
        },
{
    let cs = unicode_lowercase(word);
    let n = nuclei_from(cs, 0);
    if n.len() > 0 {
        lemma_syllables_are_pieces(cs);
        lemma_nuclei_ordered(cs, 0);
        lemma_bounds(cs, n);
        let b = syllable_bounds(cs, n);
        assert forall|k: int| 0 <= k < n.len() implies b[k] <= (#[trigger] n[k]).0 && n[k].1 <= b[k + 1] by {
            assert(n[k + 1 - 1].1 <= b[k + 1]);
        }
    }
}

/// The onset length of a consonant cluster, by the listed onsets.
proof fn lemma_onset_listed(cons: Seq<char>)
    requires cons.len() >= 1,
    ensures
        ({
            let m = cons.len() as int;
            let x = if m >= 3 { cons[m - 3] } else { '\0' };
            let y = if m >= 2 { cons[m - 2] } else { '\0' };
            let z = cons[m - 1];
            let three = m >= 3 && ((x == 's' && y == 't' && z == 'r') || (x == 's' && y == 'p' && z == 'l') || (x == 's' && y == 'p' && z == 'r') || (x == 's' && y == 'c' && z == 'r') || (x == 's' && y == 'h' && z == 'r') || (x == 't' && y == 'h' && z == 'r'));
            let two = m >= 2 && ((y == 'b' && z == 'l')
                    || (y == 'b' && z == 'r')
                    || (y == 'c' && z == 'l')
                    || (y == 'c' && z == 'r')
                    || (y == 'd' && z == 'r')
                    || (y == 'f' && z == 'l')
                    || (y == 'f' && z == 'r')
                    || (y == 'g' && z == 'l')
                    || (y == 'g' && z == 'r')
                    || (y == 'p' && z == 'l')
                    || (y == 'p' && z == 'r')
                    || (y == 's' && z == 'c')
                    || (y == 's' && z == 'k')
                    || (y == 's' && z == 'l')
                    || (y == 's' && z == 'm')
                    || (y == 's' && z == 'n')
                    || (y == 's' && z == 'p')
                    || (y == 's' && z == 't')
                    || (y == 's' && z == 'w')
                    || (y == 't' && z == 'h')
                    || (y == 't' && z == 'r')
                    || (y == 't' && z == 'w')
                    || (y == 'w' && z == 'h')
                    || (y == 'p' && z == 'h')
                    || (y == 'c' && z == 'h')
                    || (y == 's' && z == 'h')
                    || (y == 'k' && z == 'l')
                    || (y == 'k' && z == 'r')
                    || (y == 'k' && z == 'n')
                    || (y == 'w' && z == 'r')
                    || (y == 'g' && z == 'n')
                    || (y == 'p' && z == 'n')
                    || (y == 't' && z == 'z'));
            &&& three ==> onset_len(cons) == 3
            &&& !three && two ==> onset_len(cons) == 2
            &&& !three && !two ==> onset_len(cons) == 1
        }),
{
}

/// The start of syllable `k` is the start of its vowel run less the onset
/// length of the consonants before it.
proof fn lemma_bound_is_onset(cs: Seq<char>, k: int)
    requires 0 < k < nuclei_from(cs, 0).len(),
    ensures
        ({
            let n = nuclei_from(cs, 0);
            let cons = cs.subrange(n[k - 1].1, n[k].0);
            &&& cons.len() >= 1
            &&& syllable_bounds(cs, n)[k] == n[k].0 - onset_len(cons)
        }),
{
    let n = nuclei_from(cs, 0);
    lemma_nuclei_ordered(cs, 0);
    assert(n[k - 1].1 < n[k - 1 + 1].0);
    assert(n[k].0 <= cs.len());
    let cons = cs.subrange(n[k - 1].1, n[k].0);
    assert(onset_len(cons) <= cons.len());
}

/// Maximal onset: between two vowel runs of the lower-cased word, the next
/// syllable starts with the longest legal onset at the end of the
/// consonants in between: three letters for str, spl, spr, scr, shr, thr;
/// two for bl, br, cl, cr, dr, fl, fr, gl, gr, pl, pr, sc, sk, sl, sm, sn,
/// sp, st, sw, th, tr, tw, wh, ph, ch, sh, kl, kr, kn, wr, gn, pn, tz;
/// otherwise one. Syllable `k` is the text from bound `k` to bound `k + 1`.
pub proof fn law_maximal_onset(word: Seq<char>, k: int)
    requires
        0 < k < nuclei_from(unicode_lowercase(word), 0).len(),
    ensures
        ({
            let cs = unicode_lowercase(word);
            let n = nuclei_from(cs, 0);
            let cons = cs.subrange(n[k - 1].1, n[k].0);
            let m = cons.len() as int;
            let b = syllable_bounds(cs, n)[k];
            let x = if m >= 3 { cons[m - 3] } else { '\0' };
            let y = if m >= 2 { cons[m - 2] } else { '\0' };
            let z = cons[m - 1];
            let three = m >= 3 && ((x == 's' && y == 't' && z == 'r') || (x == 's' && y == 'p' && z == 'l') || (x == 's' && y == 'p' && z == 'r') || (x == 's' && y == 'c' && z == 'r') || (x == 's' && y == 'h' && z == 'r') || (x == 't' && y == 'h' && z == 'r'));
            let two = m >= 2 && ((y == 'b' && z == 'l')
                    || (y == 'b' && z == 'r')
                    || (y == 'c' && z == 'l')
                    || (y == 'c' && z == 'r')
                    || (y == 'd' && z == 'r')
                    || (y == 'f' && z == 'l')
                    || (y == 'f' && z == 'r')
                    || (y == 'g' && z == 'l')
                    || (y == 'g' && z == 'r')
                    || (y == 'p' && z == 'l')
                    || (y == 'p' && z == 'r')
                    || (y == 's' && z == 'c')
                    || (y == 's' && z == 'k')
                    || (y == 's' && z == 'l')
                    || (y == 's' && z == 'm')
                    || (y == 's' && z == 'n')
                    || (y == 's' && z == 'p')
                    || (y == 's' && z == 't')
                    || (y == 's' && z == 'w')
                    || (y == 't' && z == 'h')
                    || (y == 't' && z == 'r')
                    || (y == 't' && z == 'w')
                    || (y == 'w' && z == 'h')
                    || (y == 'p' && z == 'h')
                    || (y == 'c' && z == 'h')
                    || (y == 's' && z == 'h')
                    || (y == 'k' && z == 'l')
                    || (y == 'k' && z == 'r')
                    || (y == 'k' && z == 'n')
                    || (y == 'w' && z == 'r')
                    || (y == 'g' && z == 'n')
                    || (y == 'p' && z == 'n')
                    || (y == 't' && z == 'z'));
            &&& m >= 1
            &&& three ==> b == n[k].0 - 3
            &&& !three && two ==> b == n[k].0 - 2
            &&& !three && !two ==> b == n[k].0 - 1
            &&& syllabify_spec(word)[k] == cs.subrange(b, syllable_bounds(cs, n)[k + 1])
        }),
{
    let cs = unicode_lowercase(word);
    let n = nuclei_from(cs, 0);
    lemma_bound_is_onset(cs, k);
    lemma_onset_listed(cs.subrange(n[k - 1].1, n[k].0));
    lemma_syllables_are_pieces(cs);
}

/// Syllable bigrams: the pairs of consecutive syllables.
pub fn syllable_bigrams(word: &str) -> (r: Vec<(String, String)>)
    ensures
        r.deep_view() == bigrams_of(syllabify_spec(word@)),
{
    let sylls = syllabify(word);
    let mut pairs: Vec<(String, String)> = Vec::new();
    let mut k: usize = 0;
    while k + 1 < sylls.len()
        invariant
            k <= sylls.len(),
            sylls.len() == 0 ==> k == 0,
            sylls.len() > 0 ==> k < sylls.len(),
            sylls.deep_view() == syllabify_spec(word@),
            pairs@.len() == k,
            forall|q: int| 0 <= q < k ==>
                (#[trigger] pairs@[q]).0@ == syllabify_spec(word@)[q] && pairs@[q].1@ == syllabify_spec(word@)[q + 1],
        decreases sylls.len() - k,
    {
        let first = sylls[k].clone();
        let second = sylls[k + 1].clone();
        assert(sylls.deep_view()[k as int] == sylls@[k as int]@);
        assert(sylls.deep_view()[k as int + 1] == sylls@[k as int + 1]@);
        pairs.push((first, second));
        k += 1;
    }
    assert(pairs.deep_view() =~= bigrams_of(syllabify_spec(word@)));
    pairs
}

} // verus!
