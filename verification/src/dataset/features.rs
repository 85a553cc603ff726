//! Column names and word-level features of a score matrix.
use vstd::prelude::*;

use crate::algorithms::ratio::{max_nat, min_nat, Ratio};
use crate::algorithms::runs::{
    common_prefix_len, common_prefix_length, common_suffix_len, common_suffix_length,
    lemma_common_prefix, lemma_common_prefix_skip, lemma_run_witness,
};
use crate::error::Error;
use crate::algorithms::levenshtein::is_plain_vowel;
use crate::text::{char_is_alphabetic, chars_of, str_eq, to_ascii_lowercase, unicode_alphabetic};

verus! {

/// The structural features computed on the raw pair.
#[derive(Debug, Clone, Copy, PartialEq, Eq)]
pub enum WordFeature {
    LenX1,
    LenX2,
    LenMin,
    LenMax,
    LenDiff,
    LenRatio,
    CommonPrefixLen,
    CommonPrefixRatio,
    CommonSuffixLen,
    CommonSuffixRatio,
    FirstMismatchPos,
    FirstCharMatch,
    ConsonantCountDiff,
    SyllableDiff,
    VowelCountDiff,
}

/// The value of a word-level feature: a count, a ratio, or a flag.
#[derive(Debug, Clone, Copy, PartialEq, Eq)]
pub enum FeatureValue {
    Count(usize),
    Ratio(Ratio),
    Flag(bool),
}

impl WordFeature {
    /// The column name of the feature.
    pub open spec fn name_spec(self) -> Seq<char> {
        match self {
            WordFeature::LenX1 => "len_x1"@,
            WordFeature::LenX2 => "len_x2"@,
            WordFeature::LenMin => "len_min"@,
            WordFeature::LenMax => "len_max"@,
            WordFeature::LenDiff => "len_diff"@,
            WordFeature::LenRatio => "len_ratio"@,
            WordFeature::CommonPrefixLen => "common_prefix_len"@,
            WordFeature::CommonPrefixRatio => "common_prefix_ratio"@,
            WordFeature::CommonSuffixLen => "common_suffix_len"@,
            WordFeature::CommonSuffixRatio => "common_suffix_ratio"@,
            WordFeature::FirstMismatchPos => "first_mismatch_pos"@,
            WordFeature::FirstCharMatch => "first_char_match"@,
            WordFeature::ConsonantCountDiff => "consonant_count_diff"@,
            WordFeature::SyllableDiff => "syllable_diff"@,
            WordFeature::VowelCountDiff => "vowel_count_diff"@,
        }
    }

    pub fn name(self) -> (r: &'static str)
        ensures r@ == self.name_spec(),
    {
        match self {
            WordFeature::LenX1 => "len_x1",
            WordFeature::LenX2 => "len_x2",
            WordFeature::LenMin => "len_min",
            WordFeature::LenMax => "len_max",
            WordFeature::LenDiff => "len_diff",
            WordFeature::LenRatio => "len_ratio",
            WordFeature::CommonPrefixLen => "common_prefix_len",
            WordFeature::CommonPrefixRatio => "common_prefix_ratio",
            WordFeature::CommonSuffixLen => "common_suffix_len",
            WordFeature::CommonSuffixRatio => "common_suffix_ratio",
            WordFeature::FirstMismatchPos => "first_mismatch_pos",
            WordFeature::FirstCharMatch => "first_char_match",
            WordFeature::ConsonantCountDiff => "consonant_count_diff",
            WordFeature::SyllableDiff => "syllable_diff",
            WordFeature::VowelCountDiff => "vowel_count_diff",
        }
    }

    /// Every word-level feature, in column order.
    pub open spec fn all_spec() -> Seq<WordFeature> {
        seq![
            WordFeature::LenX1,
            WordFeature::LenX2,
            WordFeature::LenMin,
            WordFeature::LenMax,
            WordFeature::LenDiff,
            WordFeature::LenRatio,
            WordFeature::CommonPrefixLen,
            WordFeature::CommonPrefixRatio,
            WordFeature::CommonSuffixLen,
            WordFeature::CommonSuffixRatio,
            WordFeature::FirstMismatchPos,
            WordFeature::FirstCharMatch,
            WordFeature::ConsonantCountDiff,
            WordFeature::SyllableDiff,
            WordFeature::VowelCountDiff,
        ]
    }

    pub fn all() -> (r: Vec<WordFeature>)
        ensures r@ == Self::all_spec(),
    {
        let r = vec![
            WordFeature::LenX1,
            WordFeature::LenX2,
            WordFeature::LenMin,
            WordFeature::LenMax,
            WordFeature::LenDiff,
            WordFeature::LenRatio,
            WordFeature::CommonPrefixLen,
            WordFeature::CommonPrefixRatio,
            WordFeature::CommonSuffixLen,
            WordFeature::CommonSuffixRatio,
            WordFeature::FirstMismatchPos,
            WordFeature::FirstCharMatch,
            WordFeature::ConsonantCountDiff,
            WordFeature::SyllableDiff,
            WordFeature::VowelCountDiff,
        ];
        assert(r@ =~= Self::all_spec());
        r
    }
}

/// The column label of an algorithm: with word-level features on, an
/// algorithm named `Prefix` is labelled `common_prefix_ratio` instead of
/// duplicating that feature.
pub open spec fn algorithm_label(name: Seq<char>, include_word_level_features: bool) -> Seq<char> {
    if include_word_level_features && name == "Prefix"@ { "common_prefix_ratio"@ } else { name }
}

pub fn normalized_algorithm_label(name: &str, include_word_level_features: bool) -> (r: String)
    ensures r@ == algorithm_label(name@, include_word_level_features),
{
    if include_word_level_features && str_eq(name, "Prefix") {
        "common_prefix_ratio".to_owned()
    } else {
        name.to_owned()
    }
}

/// Whether `names` holds `name`.
fn holds_name(names: &Vec<String>, name: &str) -> (r: bool)
    ensures r == names.deep_view().contains(name@),
{
    let mut i: usize = 0;
    while i < names.len()
        invariant
            i <= names.len(),
            forall|k: int| 0 <= k < i ==> names.deep_view()[k] != name@,
        decreases names.len() - i,
    {
        if str_eq(names[i].as_str(), name) {
            assert(names.deep_view()[i as int] == name@);
            return true;
        }
        i += 1;
    }
    false
}

/// The word-level features whose names are not already column names, in
/// column order.
pub fn word_level_features(existing_names: &Vec<String>) -> (r: Vec<WordFeature>)
    ensures
        r@ == WordFeature::all_spec().filter(|f: WordFeature| !existing_names.deep_view().contains(f.name_spec())),
{
    let all = WordFeature::all();
    let ghost keep = |f: WordFeature| !existing_names.deep_view().contains(f.name_spec());
    let mut out: Vec<WordFeature> = Vec::new();
    let mut i: usize = 0;
    while i < all.len()
        invariant
            i <= all.len(),
            all@ == WordFeature::all_spec(),
            keep == (|f: WordFeature| !existing_names.deep_view().contains(f.name_spec())),
            out@ == all@.take(i as int).filter(keep),
        decreases all.len() - i,
    {
        let f = all[i];
        proof {
            all@.take(i as int).lemma_filter_push(f, keep);
            assert(all@.take(i as int + 1) =~= all@.take(i as int).push(f));
        }
        if !holds_name(existing_names, f.name()) {
            out.push(f);
        }
        i += 1;
    }
    assert(all@.take(all.len() as int) =~= all@);
    out
}

/// A consonant letter: an alphabetic character that is not one of the five
/// plain vowels.
pub open spec fn is_consonant_letter(c: char) -> bool {
    unicode_alphabetic(c) && !is_plain_vowel(c)
}

/// The number of plain vowels (`a`, `e`, `i`, `o`, `u`, either case).
pub open spec fn vowel_count(s: Seq<char>) -> nat
    decreases s.len(),
{
    if s.len() == 0 { 0 } else { vowel_count(s.drop_last()) + if is_plain_vowel(s.last()) { 1nat } else { 0nat } }
}

/// The number of consonant letters.
pub open spec fn consonant_count(s: Seq<char>) -> nat
    decreases s.len(),
{
    if s.len() == 0 { 0 } else { consonant_count(s.drop_last()) + if is_consonant_letter(s.last()) { 1nat } else { 0nat } }
}

/// The number of maximal runs of plain vowels: the vowel nuclei.
pub open spec fn vowel_runs(s: Seq<char>) -> nat
    decreases s.len(),
{
    if s.len() == 0 {
        0
    } else {
        let starts = is_plain_vowel(s.last()) && (s.len() == 1 || !is_plain_vowel(s[s.len() - 2]));
        vowel_runs(s.drop_last()) + if starts { 1nat } else { 0nat }
    }
}

/// The distance between two counts.
pub open spec fn abs_diff(a: nat, b: nat) -> nat {
    if a >= b { (a - b) as nat } else { (b - a) as nat }
}

/// The consonant letters, vowels and vowel runs of `s`.
pub fn letter_counts(s: &str) -> (r: (usize, usize, usize))
    ensures
        r.0 == consonant_count(s@),
        r.1 == vowel_count(s@),
        r.2 == vowel_runs(s@),
{
    let cs = chars_of(s);
    let (mut consonants, mut vowels, mut runs): (usize, usize, usize) = (0, 0, 0);
    let mut previous_vowel = false;
    let mut i: usize = 0;
    while i < cs.len()
        invariant
            i <= cs.len(),
            cs@ == s@,
            consonants == consonant_count(cs@.take(i as int)),
            vowels == vowel_count(cs@.take(i as int)),
            runs == vowel_runs(cs@.take(i as int)),
            consonants <= i && vowels <= i && runs <= i,
            previous_vowel == (i > 0 && is_plain_vowel(cs@[i - 1])),
        decreases cs.len() - i,
    {
        let c = cs[i];
        assert(cs@.take(i as int + 1).drop_last() =~= cs@.take(i as int));
        let l = to_ascii_lowercase(c);
        let vowel = l == 'a' || l == 'e' || l == 'i' || l == 'o' || l == 'u';
        if vowel {
            vowels += 1;
            if !previous_vowel {
                runs += 1;
            }
        } else if char_is_alphabetic(c) {
            consonants += 1;
        }
        previous_vowel = vowel;
        i += 1;
    }
    assert(cs@.take(cs.len() as int) =~= cs@);
    (consonants, vowels, runs)
}

fn count_diff(a: usize, b: usize) -> (r: usize)
    ensures r == abs_diff(a as nat, b as nat),
{
    if a >= b { a - b } else { b - a }
}

/// The value of a word-level feature for the raw pair `(left, right)`.
/// Ratios of an empty range are `1`.
pub open spec fn feature_value(left: Seq<char>, right: Seq<char>, f: WordFeature) -> FeatureValue {
    let (a, b) = (left.len() as int, right.len() as int);
    let max_len = max_nat(a, b);
    let min_len = min_nat(a, b);
    let prefix = common_prefix_len(left, right) as int;
    let suffix = common_suffix_len(left, right) as int;
    let ratio = |num: int, den: int| if den == 0 {
        Ratio { num: 1, den: 1 }
    } else {
        Ratio { num: num as u128, den: den as u128 }
    };
    match f {
        WordFeature::LenX1 => FeatureValue::Count(a as usize),
        WordFeature::LenX2 => FeatureValue::Count(b as usize),
        WordFeature::LenMin => FeatureValue::Count(min_len as usize),
        WordFeature::LenMax => FeatureValue::Count(max_len as usize),
        WordFeature::LenDiff => FeatureValue::Count((max_len - min_len) as usize),
        WordFeature::LenRatio => FeatureValue::Ratio(ratio(min_len, max_len)),
        WordFeature::CommonPrefixLen => FeatureValue::Count(prefix as usize),
        WordFeature::CommonPrefixRatio => FeatureValue::Ratio(ratio(prefix, max_len)),
        WordFeature::CommonSuffixLen => FeatureValue::Count(suffix as usize),
        WordFeature::CommonSuffixRatio => FeatureValue::Ratio(ratio(suffix, max_len)),
        WordFeature::FirstMismatchPos => FeatureValue::Ratio(ratio(prefix, min_len)),
        WordFeature::FirstCharMatch => FeatureValue::Flag((a == 0 && b == 0) || prefix >= 1),
        WordFeature::ConsonantCountDiff => FeatureValue::Count(abs_diff(consonant_count(left), consonant_count(right)) as usize),
        WordFeature::SyllableDiff => FeatureValue::Count(abs_diff(vowel_runs(left), vowel_runs(right)) as usize),
        WordFeature::VowelCountDiff => FeatureValue::Count(abs_diff(vowel_count(left), vowel_count(right)) as usize),
    }
}

/// The first mismatch is measured against the shorter input: a word that is
/// a strict prefix of the other reports full agreement.
pub proof fn law_prefix_word_full_agreement(left: Seq<char>, right: Seq<char>)
    requires
        0 < left.len() <= right.len(),
        right.subrange(0, left.len() as int) == left,
    ensures
        feature_value(left, right, WordFeature::FirstMismatchPos)
            == FeatureValue::Ratio(Ratio { num: left.len() as u128, den: left.len() as u128 }),
{
    let n = left.len() as int;
    assert forall|j: int| 0 <= j < n implies left[j] == right[j] by {
        assert(right.subrange(0, n)[j] == right[j]);
    }
    lemma_common_prefix_skip(left, right, n);
    assert(left.skip(n).len() == 0);
}

fn fraction(num: usize, den: usize) -> (r: Ratio)
    ensures r == (if den == 0 { Ratio { num: 1, den: 1 } } else { Ratio { num: num as u128, den: den as u128 } }),
{
    if den == 0 { Ratio::one() } else { Ratio { num: num as u128, den: den as u128 } }
}

/// The word-level features `features` of the raw pair `(left, right)`.
pub fn length_feature_values(left: &str, right: &str, features: &Vec<WordFeature>) -> (r: Vec<FeatureValue>)
    ensures
        r@.len() == features@.len(),
        forall|k: int| 0 <= k < r@.len() ==> #[trigger] r@[k] == feature_value(left@, right@, features@[k]),
{
    let l = chars_of(left);
    let rr = chars_of(right);
    let a = l.len();
    let b = rr.len();
    let max_len = if a >= b { a } else { b };
    let min_len = if a <= b { a } else { b };
    let prefix = common_prefix_length(&l, &rr);
    let suffix = common_suffix_length(&l, &rr);
    let (lc, lv, lr) = letter_counts(left);
    let (rc, rv, rn) = letter_counts(right);
    proof {
        lemma_common_prefix(l@, rr@);
        lemma_run_witness(l@, rr@, a as int, b as int);
    }
    let mut out: Vec<FeatureValue> = Vec::new();
    let mut k: usize = 0;
    while k < features.len()
        invariant
            k <= features.len(),
            l@ == left@,
            rr@ == right@,
            a == l.len(),
            b == rr.len(),
            max_len == max_nat(a as int, b as int),
            min_len == min_nat(a as int, b as int),
            prefix == common_prefix_len(l@, rr@),
            suffix == common_suffix_len(l@, rr@),
            lc == consonant_count(left@) && lv == vowel_count(left@) && lr == vowel_runs(left@),
            rc == consonant_count(right@) && rv == vowel_count(right@) && rn == vowel_runs(right@),
            out@.len() == k,
            forall|q: int| 0 <= q < k ==> #[trigger] out@[q] == feature_value(left@, right@, features@[q]),
        decreases features.len() - k,
    {
        let v = match features[k] {
            WordFeature::LenX1 => FeatureValue::Count(a),
            WordFeature::LenX2 => FeatureValue::Count(b),
            WordFeature::LenMin => FeatureValue::Count(min_len),
            WordFeature::LenMax => FeatureValue::Count(max_len),
            WordFeature::LenDiff => FeatureValue::Count(max_len - min_len),
            WordFeature::LenRatio => FeatureValue::Ratio(fraction(min_len, max_len)),
            WordFeature::CommonPrefixLen => FeatureValue::Count(prefix),
            WordFeature::CommonPrefixRatio => FeatureValue::Ratio(fraction(prefix, max_len)),
            WordFeature::CommonSuffixLen => FeatureValue::Count(suffix),
            WordFeature::CommonSuffixRatio => FeatureValue::Ratio(fraction(suffix, max_len)),
            WordFeature::FirstMismatchPos => FeatureValue::Ratio(fraction(prefix, min_len)),
            WordFeature::FirstCharMatch => FeatureValue::Flag((a == 0 && b == 0) || prefix >= 1),
            WordFeature::ConsonantCountDiff => FeatureValue::Count(count_diff(lc, rc)),
            WordFeature::SyllableDiff => FeatureValue::Count(count_diff(lr, rn)),
            WordFeature::VowelCountDiff => FeatureValue::Count(count_diff(lv, rv)),
        };
        out.push(v);
        k += 1;
    }
    out
}

/// The shape checks of a score matrix, in the order they are made.
pub open spec fn shape_error<S>(
    inputs_len: int,
    labels_len: int,
    base_scores: Seq<Vec<S>>,
    names_len: int,
    headers_len: int,
    passthrough_rows: Seq<Vec<String>>,
) -> Option<Seq<char>> {
    if inputs_len != labels_len {
        Some("inputs and labels must have same length"@)
    } else if inputs_len != base_scores.len() {
        Some("inputs and base_scores must have same length"@)
    } else if exists|k: int| 0 <= k < base_scores.len() && (#[trigger] base_scores[k]).len() != names_len {
        Some("every base_scores row must match algorithm count"@)
    } else if (headers_len != 0 || passthrough_rows.len() != 0) && passthrough_rows.len() != inputs_len {
        Some("passthrough rows must match input count"@)
    } else if (headers_len != 0 || passthrough_rows.len() != 0)
        && exists|k: int| 0 <= k < passthrough_rows.len() && (#[trigger] passthrough_rows[k]).len() != headers_len {
        Some("every passthrough row must match passthrough header count"@)
    } else {
        None
    }
}

/// Checks that the parts of a score matrix line up: one label and one score
/// row per input, one score per algorithm name in every row, and, when pass-
/// through headers or rows are given, one pass-through row per input with
/// one cell per header.
pub fn validate_shape<S>(
    inputs_len: usize,
    labels_len: usize,
    base_scores: &Vec<Vec<S>>,
    names_len: usize,
    headers_len: usize,
    passthrough_rows: &Vec<Vec<String>>,
) -> (r: Result<(), Error>)
    ensures
        match shape_error(inputs_len as int, labels_len as int, base_scores@, names_len as int, headers_len as int, passthrough_rows@) {
            None => r is Ok,
            Some(m) => r matches Err(Error::InvalidDatasetShape(msg)) && msg@ == m,
        },
{
    if inputs_len != labels_len {
        return Err(Error::InvalidDatasetShape("inputs and labels must have same length".to_owned()));
    }
    if inputs_len != base_scores.len() {
        return Err(Error::InvalidDatasetShape("inputs and base_scores must have same length".to_owned()));
    }
    let mut k: usize = 0;
    while k < base_scores.len()
        invariant
            k <= base_scores.len(),
            inputs_len == labels_len,
            inputs_len == base_scores.len(),
            forall|q: int| 0 <= q < k ==> (#[trigger] base_scores@[q]).len() == names_len,
        decreases base_scores.len() - k,
    {
        if base_scores[k].len() != names_len {
            assert((base_scores@[k as int]).len() != names_len);
            return Err(Error::InvalidDatasetShape("every base_scores row must match algorithm count".to_owned()));
        }
        k += 1;
    }
    if headers_len != 0 || passthrough_rows.len() != 0 {
        if passthrough_rows.len() != inputs_len {
            return Err(Error::InvalidDatasetShape("passthrough rows must match input count".to_owned()));
        }
        let mut q: usize = 0;
        while q < passthrough_rows.len()
            invariant
                q <= passthrough_rows.len(),
                inputs_len == labels_len,
                inputs_len == base_scores.len(),
                passthrough_rows.len() == inputs_len,
                forall|q: int| 0 <= q < base_scores@.len() ==> (#[trigger] base_scores@[q]).len() == names_len,
                forall|t: int| 0 <= t < q ==> (#[trigger] passthrough_rows@[t]).len() == headers_len,
            decreases passthrough_rows.len() - q,
        {
            if passthrough_rows[q].len() != headers_len {
                assert((passthrough_rows@[q as int]).len() != headers_len);
                return Err(Error::InvalidDatasetShape(
                    "every passthrough row must match passthrough header count".to_owned(),
                ));
            }
            q += 1;
        }
    }
    Ok(())
}

} // verus!
