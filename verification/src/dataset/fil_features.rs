//! Filipino (Tagalog) nativization indicator features.
//!
//! Indicators of whether a Filipino speaker would hear two names as
//! structurally alike after loanword nativization, computed on the
//! nativized spellings. They are flags, not similarity scores.
use vstd::prelude::*;

use crate::text::{chars_of, str_to_lowercase, string_from_chars, unicode_lowercase};

verus! {

/// The five indicator features, in column order.
#[derive(Debug, Clone, Copy, PartialEq, Eq)]
pub enum FilFeature {
    VowelSkeletonMatch,
    PenultVowelMatch,
    OnsetMatch,
    CodaMatch,
    PhoneticEqual,
}

impl FilFeature {
    pub open spec fn name_spec(self) -> Seq<char> {
        match self {
            FilFeature::VowelSkeletonMatch => "fil_vowel_skeleton_match"@,
            FilFeature::PenultVowelMatch => "fil_penult_vowel_match"@,
            FilFeature::OnsetMatch => "fil_onset_match"@,
            FilFeature::CodaMatch => "fil_coda_match"@,
            FilFeature::PhoneticEqual => "fil_phonetic_equal"@,
        }
    }

    /// The column name of the feature.
    pub fn name(self) -> (r: &'static str)
        ensures r@ == self.name_spec(),
    {
        match self {
            FilFeature::VowelSkeletonMatch => "fil_vowel_skeleton_match",
            FilFeature::PenultVowelMatch => "fil_penult_vowel_match",
            FilFeature::OnsetMatch => "fil_onset_match",
            FilFeature::CodaMatch => "fil_coda_match",
            FilFeature::PhoneticEqual => "fil_phonetic_equal",
        }
    }

    /// All five features, in column order.
    pub fn all() -> (r: Vec<FilFeature>)
        ensures
            r@ == seq![
                FilFeature::VowelSkeletonMatch,
                FilFeature::PenultVowelMatch,
                FilFeature::OnsetMatch,
                FilFeature::CodaMatch,
                FilFeature::PhoneticEqual,
            ],
    {
        let r = vec![
            FilFeature::VowelSkeletonMatch,
            FilFeature::PenultVowelMatch,
            FilFeature::OnsetMatch,
            FilFeature::CodaMatch,
            FilFeature::PhoneticEqual,
        ];
        assert(r@ =~= seq![
            FilFeature::VowelSkeletonMatch,
            FilFeature::PenultVowelMatch,
            FilFeature::OnsetMatch,
            FilFeature::CodaMatch,
            FilFeature::PhoneticEqual,
        ]);
        r
    }
}

/// Whether a character is kept by `sanitize`: an ASCII lowercase letter or `ñ`.
pub open spec fn is_kept_letter(c: char) -> bool {
    ('a' <= c && c <= 'z') || c == 'ñ'
}

/// The letters-only, lowercased skeleton of a word.
pub open spec fn sanitized(word: Seq<char>) -> Seq<char> {
    unicode_lowercase(word).filter(|c: char| is_kept_letter(c))
}

/// Letters-only, lowercased skeleton used when a word cannot be nativized,
/// so one odd input degrades gracefully instead of aborting a run.
pub fn sanitize(word: &str) -> (r: String)
    ensures r@ == sanitized(word@),
{
    let lowered = str_to_lowercase(word);
    let chars = chars_of(lowered.as_str());
    let ghost keep = |c: char| is_kept_letter(c);
    let mut out: Vec<char> = Vec::new();
    let mut i: usize = 0;
    while i < chars.len()
        invariant
            i <= chars.len(),
            chars@ == unicode_lowercase(word@),
            keep == (|c: char| is_kept_letter(c)),
            out@ == chars@.take(i as int).filter(keep),
        decreases chars.len() - i,
    {
        let c = chars[i];
        proof {
            chars@.take(i as int).lemma_filter_push(c, keep);
            assert(chars@.take(i as int + 1) =~= chars@.take(i as int).push(c));
        }
        if ('a' <= c && c <= 'z') || c == 'ñ' {
            out.push(c);
        }
        i += 1;
    }
    assert(chars@.take(chars.len() as int) =~= chars@);
    string_from_chars(&out)
}

/// The vowel of the three-vowel skeleton that a letter stands for:
/// `a`, `i`, `u` stay, `e` is raised to `i` and `o` to `u`.
pub open spec fn skeleton_vowel(c: char) -> Option<char> {
    if c == 'a' || c == 'i' || c == 'u' {
        Some(c)
    } else if c == 'e' {
        Some('i')
    } else if c == 'o' {
        Some('u')
    } else {
        None
    }
}

/// A nativized spelling's vowels, collapsed to the three-vowel skeleton
/// (Filipino's native vowel inventory raises unstressed e/o to i/u).
pub open spec fn vowel_skeleton_of(s: Seq<char>) -> Seq<char>
    decreases s.len(),
{
    if s.len() == 0 {
        seq![]
    } else {
        let rest = vowel_skeleton_of(s.drop_last());
        match skeleton_vowel(s.last()) {
            Some(v) => rest.push(v),
            None => rest,
        }
    }
}

/// The three-vowel skeleton of a nativized spelling.
pub fn vowel_skeleton(nativized: &str) -> (r: Vec<char>)
    ensures r@ == vowel_skeleton_of(nativized@),
{
    let chars = chars_of(nativized);
    let mut out: Vec<char> = Vec::new();
    let mut i: usize = 0;
    while i < chars.len()
        invariant
            i <= chars.len(),
            out@ == vowel_skeleton_of(chars@.take(i as int)),
        decreases chars.len() - i,
    {
        let c = chars[i];
        assert(chars@.take(i as int + 1).drop_last() =~= chars@.take(i as int));
        if c == 'a' || c == 'i' || c == 'u' {
            out.push(c);
        } else if c == 'e' {
            out.push('i');
        } else if c == 'o' {
            out.push('u');
        }
        i += 1;
    }
    assert(chars@.take(chars.len() as int) =~= chars@);
    out
}

/// The penultimate (default-stress) vowel, falling back to the only vowel of
/// a monosyllable; `None` when there is no vowel at all.
pub open spec fn penult_of(vowels: Seq<char>) -> Option<char> {
    if vowels.len() >= 2 {
        Some(vowels[vowels.len() - 2])
    } else if vowels.len() == 1 {
        Some(vowels[0])
    } else {
        None
    }
}

pub fn penult_vowel(vowels: &Vec<char>) -> (r: Option<char>)
    ensures r == penult_of(vowels@),
{
    let n = vowels.len();
    if n >= 2 {
        Some(vowels[n - 2])
    } else if n == 1 {
        Some(vowels[0])
    } else {
        None
    }
}

/// The first characters of both spellings exist and are equal.
pub open spec fn same_first(a: Seq<char>, b: Seq<char>) -> bool {
    a.len() > 0 && b.len() > 0 && a[0] == b[0]
}

/// The last characters of both spellings exist and are equal.
pub open spec fn same_last(a: Seq<char>, b: Seq<char>) -> bool {
    a.len() > 0 && b.len() > 0 && a.last() == b.last()
}

/// The value of an indicator for two nativized spellings.
pub open spec fn fil_feature_value(left: Seq<char>, right: Seq<char>, f: FilFeature) -> bool {
    let (vl, vr) = (vowel_skeleton_of(left), vowel_skeleton_of(right));
    match f {
        FilFeature::OnsetMatch => same_first(left, right),
        FilFeature::CodaMatch => same_last(left, right),
        FilFeature::VowelSkeletonMatch => vl == vr,
        FilFeature::PenultVowelMatch => penult_of(vl) is Some && penult_of(vl) == penult_of(vr),
        FilFeature::PhoneticEqual => left == right,
    }
}

/// Two names that nativize to the same spelling agree on every indicator,
/// as long as that spelling has a vowel.
pub proof fn law_same_spelling_agrees(s: Seq<char>, f: FilFeature)
    requires
        s.len() > 0,
        vowel_skeleton_of(s).len() > 0,
    ensures fil_feature_value(s, s, f),
{
}

fn chars_equal(a: &Vec<char>, b: &Vec<char>) -> (r: bool)
    ensures r == (a@ == b@),
{
    if a.len() != b.len() {
        return false;
    }
    let mut i: usize = 0;
    while i < a.len()
        invariant
            i <= a.len(),
            a.len() == b.len(),
            forall|k: int| 0 <= k < i ==> a@[k] == b@[k],
        decreases a.len() - i,
    {
        if a[i] != b[i] {
            assert(a@[i as int] != b@[i as int]);
            return false;
        }
        i += 1;
    }
    assert(a@ =~= b@);
    true
}

/// The indicators `features` for two nativized spellings, in order.
pub fn fil_feature_values(nat_left: &str, nat_right: &str, features: &Vec<FilFeature>) -> (r: Vec<bool>)
    ensures
        r@.len() == features@.len(),
        forall|k: int| 0 <= k < r@.len() ==> #[trigger] r@[k] == fil_feature_value(nat_left@, nat_right@, features@[k]),
{
    let left = chars_of(nat_left);
    let right = chars_of(nat_right);
    let vowels_left = vowel_skeleton(nat_left);
    let vowels_right = vowel_skeleton(nat_right);
    let onset = left.len() > 0 && right.len() > 0 && left[0] == right[0];
    let coda = left.len() > 0 && right.len() > 0 && left[left.len() - 1] == right[right.len() - 1];
    let skeleton = chars_equal(&vowels_left, &vowels_right);
    let penult = match (penult_vowel(&vowels_left), penult_vowel(&vowels_right)) {
        (Some(a), Some(b)) => a == b,
        _ => false,
    };
    let equal = chars_equal(&left, &right);
    let mut out: Vec<bool> = Vec::new();
    let mut k: usize = 0;
    while k < features.len()
        invariant
            k <= features.len(),
            out@.len() == k,
            onset == same_first(nat_left@, nat_right@),
            coda == same_last(nat_left@, nat_right@),
            skeleton == (vowel_skeleton_of(nat_left@) == vowel_skeleton_of(nat_right@)),
            penult == (penult_of(vowel_skeleton_of(nat_left@)) is Some
                && penult_of(vowel_skeleton_of(nat_left@)) == penult_of(vowel_skeleton_of(nat_right@))),
            equal == (nat_left@ == nat_right@),
            forall|q: int| 0 <= q < k ==> #[trigger] out@[q] == fil_feature_value(nat_left@, nat_right@, features@[q]),
        decreases features.len() - k,
    {
        let v = match features[k] {
            FilFeature::OnsetMatch => onset,
            FilFeature::CodaMatch => coda,
            FilFeature::VowelSkeletonMatch => skeleton,
            FilFeature::PenultVowelMatch => penult,
            FilFeature::PhoneticEqual => equal,
        };
        out.push(v);
        k += 1;
    }
    out
}

} // verus!
