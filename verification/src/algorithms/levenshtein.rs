//! The characters that Levenshtein distance compares.
//!
//! With `consonants_only`, vowels (`a`, `e`, `i`, `o`, `u` in either ASCII
//! case; `y` stays a consonant) are stripped from both inputs before the
//! distance is taken: vowels are less reliably perceived than consonants.
use vstd::prelude::*;

use crate::text::{ascii_lower, normalize_input, normalized, to_ascii_lowercase};

verus! {

/// One of the five plain vowels, in either ASCII case.
pub open spec fn is_plain_vowel(c: char) -> bool {
    let l = ascii_lower(c);
    l == 'a' || l == 'e' || l == 'i' || l == 'o' || l == 'u'
}

/// The characters compared: the normalized input, without its vowels when
/// `consonants_only` is set.
pub open spec fn compared_chars(input: Seq<char>, case_insensitive: bool, consonants_only: bool) -> Seq<char> {
    let chars = normalized(input, case_insensitive);
    if consonants_only { chars.filter(|c: char| !is_plain_vowel(c)) } else { chars }
}

pub fn normalized_chars(input: &str, case_insensitive: bool, consonants_only: bool) -> (r: Vec<char>)
    ensures r@ == compared_chars(input@, case_insensitive, consonants_only),
{
    let chars = normalize_input(input, case_insensitive);
    if !consonants_only {
        return chars;
    }
    let ghost keep = |c: char| !is_plain_vowel(c);
    let mut out: Vec<char> = Vec::new();
    let mut i: usize = 0;
    while i < chars.len()
        invariant
            i <= chars.len(),
            keep == (|c: char| !is_plain_vowel(c)),
            out@ == chars@.take(i as int).filter(keep),
        decreases chars.len() - i,
    {
        let c = chars[i];
        proof {
            chars@.take(i as int).lemma_filter_push(c, keep);
            assert(chars@.take(i as int + 1) =~= chars@.take(i as int).push(c));
        }
        let l = to_ascii_lowercase(c);
        if !(l == 'a' || l == 'e' || l == 'i' || l == 'o' || l == 'u') {
            out.push(c);
        }
        i += 1;
    }
    assert(chars@.take(chars.len() as int) =~= chars@);
    out
}

/// With `consonants_only`, no vowel is left, and every other character is.
pub proof fn law_consonants_only(input: Seq<char>, case_insensitive: bool)
    ensures
        forall|i: int| 0 <= i < compared_chars(input, case_insensitive, true).len()
            ==> !is_plain_vowel(#[trigger] compared_chars(input, case_insensitive, true)[i]),
        forall|i: int| 0 <= i < normalized(input, case_insensitive).len()
            && !is_plain_vowel(#[trigger] normalized(input, case_insensitive)[i])
            ==> compared_chars(input, case_insensitive, true).contains(normalized(input, case_insensitive)[i]),
{
    broadcast use vstd::seq_lib::group_filter_ensures;
}

} // verus!
