//! Metaphone phonetic similarity (Lawrence Philips, 1990).
//!
//! Both strings are reduced to a phonetic skeleton via English pronunciation
//! rules and then compared with Jaro similarity on the resulting codes.
pub mod encode;
pub mod jaro;

use vstd::prelude::*;

use crate::algorithms::ratio::Ratio;
use crate::text::chars_of;
use encode::{metaphone, metaphone_spec};
use jaro::{jaro, jaro_spec, law_jaro_identical, JaroParts, JaroScore};

verus! {

/// Configuration for Metaphone phonetic similarity.
#[derive(Debug, Clone, Copy)]
pub struct Metaphone {
    pub case_insensitive: bool,
    /// Maximum length of the phonetic code to compare. 0 means unlimited.
    pub max_code_length: usize,
}

/// The first `max_len` characters of `code`, or all of it when `max_len` is 0.
pub open spec fn truncated(code: Seq<char>, max_len: int) -> Seq<char> {
    if max_len == 0 || code.len() <= max_len { code } else { code.take(max_len) }
}

/// Metaphone similarity of two strings: the Jaro score of their (truncated)
/// codes, where an empty code scores `1` against an empty code and `0`
/// against any other.
pub open spec fn metaphone_similarity(x: Seq<char>, y: Seq<char>, max_len: int) -> JaroScore {
    let cx = truncated(metaphone_spec(x), max_len);
    let cy = truncated(metaphone_spec(y), max_len);
    if cx.len() == 0 || cy.len() == 0 {
        JaroScore::Fixed(if cx == cy { Ratio { num: 1, den: 1 } } else { Ratio { num: 0, den: 1 } })
    } else {
        jaro_spec(cx, cy)
    }
}

/// Keeps the first `max_len` characters of `code`; 0 keeps everything.
pub fn truncate(code: &str, max_len: usize) -> (r: Vec<char>)
    ensures r@ == truncated(code@, max_len as int),
{
    let chars = chars_of(code);
    if max_len == 0 || chars.len() <= max_len {
        return chars;
    }
    let mut out: Vec<char> = Vec::new();
    let mut i: usize = 0;
    while i < max_len
        invariant
            i <= max_len,
            max_len < chars.len(),
            out@ == chars@.take(i as int),
        decreases max_len - i,
    {
        out.push(chars[i]);
        assert(chars@.take(i as int + 1) =~= chars@.take(i as int).push(chars@[i as int]));
        i += 1;
    }
    out
}

impl Metaphone {
    pub fn new(case_insensitive: bool, max_code_length: usize) -> (r: Self)
        ensures
            r.case_insensitive == case_insensitive,
            r.max_code_length == max_code_length,
    {
        Self { case_insensitive, max_code_length }
    }

    /// Metaphone similarity of `x` and `y`.
    pub fn similarity(&self, x: &str, y: &str) -> (r: JaroScore)
        ensures r == metaphone_similarity(x@, y@, self.max_code_length as int),
    {
        let code_x = metaphone(x);
        let code_y = metaphone(y);
        let cx = truncate(code_x.as_str(), self.max_code_length);
        let cy = truncate(code_y.as_str(), self.max_code_length);
        if cx.len() == 0 || cy.len() == 0 {
            let same = cx.len() == cy.len();
            assert(same <==> cx@ == cy@) by {
                if cx.len() == cy.len() {
                    assert(cx@ =~= cy@);
                }
            }
            return JaroScore::Fixed(if same { Ratio::one() } else { Ratio::zero() });
        }
        jaro(&cx, &cy)
    }
}

/// A word is fully similar to itself: an empty code scores `1`, and a
/// non-empty one matches itself in every position with no transposition.
pub proof fn law_metaphone_identical(x: Seq<char>, max_len: int)
    requires max_len >= 0,
    ensures
        truncated(metaphone_spec(x), max_len).len() == 0
            ==> metaphone_similarity(x, x, max_len) == JaroScore::Fixed(Ratio { num: 1, den: 1 }),
        truncated(metaphone_spec(x), max_len).len() > 0
            ==> metaphone_similarity(x, x, max_len) == JaroScore::Parts(JaroParts {
                matches: truncated(metaphone_spec(x), max_len).len() as usize,
                half_transpositions: 0,
                len_a: truncated(metaphone_spec(x), max_len).len() as usize,
                len_b: truncated(metaphone_spec(x), max_len).len() as usize,
            }),
{
    let c = truncated(metaphone_spec(x), max_len);
    if c.len() > 0 {
        law_jaro_identical(c);
    }
}

} // verus!
