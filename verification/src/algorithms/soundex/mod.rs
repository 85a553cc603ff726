//! American Soundex phonetic similarity.
//!
//! Both strings are encoded into a Soundex code and then compared. Two
//! strings that sound alike under English pronunciation rules receive the
//! same code.
//!
//! ## Similarity modes
//!
//! - **Binary** (default): 1 if both codes are identical, 0 otherwise.
//! - **Soft**: position-wise agreement across the code characters, out of
//!   four, giving partial credit when letter or digit groups partly match.
pub mod encode;

use vstd::prelude::*;

use crate::algorithms::ratio::Ratio;
use crate::text::{chars_of, normalized, str_to_lowercase};
use crate::text::upper_letters_spec;
use encode::{agreements, code_agreements, law_soundex_shape, lemma_agreements_symmetric, soundex, soundex_spec};

verus! {

/// How Soundex codes are compared to produce a similarity score.
#[derive(Debug, Clone, Copy, PartialEq, Eq, Default)]
pub enum SoundexMode {
    /// 1 if codes are identical, 0 otherwise.
    #[default]
    Binary,
    /// Position-wise agreement on the four-character code, giving partial credit.
    Soft,
}

/// Configuration for Soundex phonetic similarity.
#[derive(Debug, Clone, Copy)]
pub struct Soundex {
    pub case_insensitive: bool,
    pub mode: SoundexMode,
}

/// Soundex similarity as `(numerator, denominator)`: `0` when either code is
/// empty; otherwise, in binary mode, `1` for equal codes and `0` for different
/// ones, and in soft mode the agreeing positions out of four.
pub open spec fn soundex_ratio(x: Seq<char>, y: Seq<char>, mode: SoundexMode) -> (int, int) {
    let cx = soundex_spec(x);
    let cy = soundex_spec(y);
    if cx.len() == 0 || cy.len() == 0 {
        (0, 1)
    } else {
        match mode {
            SoundexMode::Binary => if cx == cy { (1, 1) } else { (0, 1) },
            SoundexMode::Soft => {
                let common = if cx.len() <= cy.len() { cx.len() as int } else { cy.len() as int };
                (agreements(cx, cy, common) as int, 4)
            },
        }
    }
}

/// Soundex similarity does not depend on the order of its inputs.
pub proof fn law_soundex_symmetric(x: Seq<char>, y: Seq<char>, mode: SoundexMode)
    ensures soundex_ratio(x, y, mode) == soundex_ratio(y, x, mode),
{
    let (cx, cy) = (soundex_spec(x), soundex_spec(y));
    let common = if cx.len() <= cy.len() { cx.len() as int } else { cy.len() as int };
    lemma_agreements_symmetric(cx, cy, common);
}

/// A word with a code sounds like itself: in either mode its similarity to
/// itself is full (four agreeing positions of a four-character code in soft mode).
pub proof fn law_soundex_identical(x: Seq<char>)
    requires soundex_spec(x).len() > 0,
    ensures
        soundex_ratio(x, x, SoundexMode::Binary) == (1int, 1int),
        soundex_ratio(x, x, SoundexMode::Soft) == (soundex_spec(x).len() as int, 4int),
{
    lemma_agreements_self(soundex_spec(x), soundex_spec(x).len() as int);
}

proof fn lemma_agreements_at_most(a: Seq<char>, b: Seq<char>, k: int)
    requires 0 <= k,
    ensures agreements(a, b, k) <= k,
    decreases k,
{
    if k > 0 {
        lemma_agreements_at_most(a, b, k - 1);
    }
}

proof fn lemma_agreements_self(a: Seq<char>, k: int)
    requires 0 <= k,
    ensures agreements(a, a, k) == k,
    decreases k,
{
    if k > 0 {
        lemma_agreements_self(a, k - 1);
    }
}

impl Soundex {
    pub fn new(case_insensitive: bool, mode: SoundexMode) -> (r: Self)
        ensures
            r.case_insensitive == case_insensitive,
            r.mode == mode,
    {
        Self { case_insensitive, mode }
    }

    /// Soundex similarity of `x` and `y` after case normalization.
    pub fn similarity(&self, x: &str, y: &str) -> (r: Ratio)
        ensures
            r.wf(),
            r.parts() == soundex_ratio(
                normalized(x@, self.case_insensitive),
                normalized(y@, self.case_insensitive),
                self.mode,
            ),
    {
        let (code_x, code_y) = if self.case_insensitive {
            let xs = str_to_lowercase(x);
            let ys = str_to_lowercase(y);
            (soundex(xs.as_str()), soundex(ys.as_str()))
        } else {
            (soundex(x), soundex(y))
        };
        let cx = chars_of(code_x.as_str());
        let cy = chars_of(code_y.as_str());
        if cx.len() == 0 || cy.len() == 0 {
            return Ratio::zero();
        }
        match self.mode {
            SoundexMode::Binary => {
                if code_x == code_y { Ratio::one() } else { Ratio::zero() }
            },
            SoundexMode::Soft => {
                let matches = code_agreements(&cx, &cy);
                proof {
                    let (nx, ny) = if self.case_insensitive {
                        (normalized(x@, true), normalized(y@, true))
                    } else {
                        (x@, y@)
                    };
                    if upper_letters_spec(nx).len() > 0 {
                        law_soundex_shape(nx);
                    }
                    if upper_letters_spec(ny).len() > 0 {
                        law_soundex_shape(ny);
                    }
                    lemma_agreements_at_most(cx@, cy@, 4);
                }
                Ratio { num: matches as u128, den: 4 }
            },
        }
    }
}

} // verus!
