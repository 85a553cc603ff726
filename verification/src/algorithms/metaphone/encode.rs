//! Metaphone (Philips, 1990), the first of the Metaphone encodings.
//!
//! Converts an English word into a phonetic skeleton by applying a cascade
//! of letter-group rules. The result is a string of consonant codes that
//! represent the pronunciation of the word.
use vstd::prelude::*;

use crate::text::{
    all_ascii, ascii_alpha, ascii_lower, ascii_upper_letters, lemma_ascii_letters_ignore_case_and_others,
    string_from_chars, upper_letters, upper_letters_spec,
};

verus! {

/// A vowel letter, in upper case.
pub open spec fn is_vowel_spec(c: char) -> bool {
    c == 'A' || c == 'E' || c == 'I' || c == 'O' || c == 'U'
}

/// One of the letters that soften a preceding `C` or `G`.
pub open spec fn is_front(c: char) -> bool {
    c == 'E' || c == 'I' || c == 'Y'
}

/// The letter at position `i`, or `'\0'` past either end.
pub open spec fn char_at(cs: Seq<char>, i: int) -> char {
    if 0 <= i < cs.len() { cs[i] } else { '\0' }
}

/// Where encoding starts: `1` when the word opens with a silent pair
/// (`AE`, `GN`, `KN`, `PN`, `WR`), else `0`.
pub open spec fn metaphone_start(cs: Seq<char>) -> int {
    let (a, b) = (cs[0], char_at(cs, 1));
    if (a == 'A' && b == 'E') || (a == 'G' && b == 'N') || (a == 'K' && b == 'N')
        || (a == 'P' && b == 'N') || (a == 'W' && b == 'R') {
        1
    } else {
        0
    }
}

/// The rule for the letter at position `i` (encoding began at `start`): the
/// code letters it emits and the position of the next letter to look at.
pub open spec fn metaphone_step(cs: Seq<char>, start: int, i: int) -> (Seq<char>, int) {
    let c = cs[i];
    let prev = if i > 0 { char_at(cs, i - 1) } else { '\0' };
    let next = char_at(cs, i + 1);
    let next2 = char_at(cs, i + 2);
    let last = i + 1 == cs.len();
    if c != 'C' && prev == c {
        // Duplicate adjacent letters (except C) are skipped.
        (seq![], i + 1)
    } else if is_vowel_spec(c) {
        // Vowels are kept only at the start of the word.
        (if i == start { seq![c] } else { seq![] }, i + 1)
    } else if c == 'B' {
        // Silent after M at the end.
        (if prev == 'M' && last { seq![] } else { seq!['B'] }, i + 1)
    } else if c == 'C' {
        if next == 'I' && (next2 == 'A' || next2 == 'O') {
            (seq!['X'], i + 1)
        } else if next == 'H' {
            (seq!['X'], i + 2)
        } else if prev == 'S' && is_front(next) {
            // SCI, SCE, SCY: the S already carries the sound.
            (seq![], i + 1)
        } else if is_front(next) {
            (seq!['S'], i + 1)
        } else if next == 'K' {
            (seq!['K'], i + 2)
        } else {
            (seq!['K'], i + 1)
        }
    } else if c == 'D' {
        if next == 'G' && is_front(next2) { (seq!['J'], i + 2) } else { (seq!['T'], i + 1) }
    } else if c == 'G' {
        let silent = (next == 'H' && !is_vowel_spec(next2))
            || (next == 'N' && (last || (next2 == 'E' && i + 3 == cs.len())))
            || (prev == 'D' && is_front(next));
        if !silent {
            if next == 'H' {
                (if is_vowel_spec(next2) { seq!['K'] } else { seq![] }, i + 2)
            } else if is_front(next) {
                (seq!['J'], i + 1)
            } else if prev != 'G' {
                (seq!['K'], i + 1)
            } else {
                (seq![], i + 1)
            }
        } else if next == 'H' {
            (seq![], i + 2)
        } else {
            (seq![], i + 1)
        }
    } else if c == 'H' {
        (if is_vowel_spec(next) && (i == 0 || !is_vowel_spec(prev)) { seq!['H'] } else { seq![] }, i + 1)
    } else if c == 'K' {
        (if prev != 'C' { seq!['K'] } else { seq![] }, i + 1)
    } else if c == 'P' {
        if next == 'H' { (seq!['F'], i + 2) } else { (seq!['P'], i + 1) }
    } else if c == 'S' {
        if next == 'H' {
            (seq!['X'], i + 2)
        } else if next == 'I' && (next2 == 'O' || next2 == 'A') {
            (seq!['X'], i + 1)
        } else {
            (seq!['S'], i + 1)
        }
    } else if c == 'T' {
        if next == 'H' {
            (seq!['0'], i + 2)
        } else if next == 'I' && (next2 == 'A' || next2 == 'O') {
            (seq!['X'], i + 1)
        } else if next != 'C' || next2 != 'H' {
            (seq!['T'], i + 1)
        } else {
            (seq![], i + 1)
        }
    } else if c == 'W' {
        (if i == 0 || is_vowel_spec(next) { seq!['W'] } else { seq![] }, i + 1)
    } else if c == 'X' {
        (seq!['K', 'S'], i + 1)
    } else if c == 'Y' {
        (if is_vowel_spec(next) { seq!['Y'] } else { seq![] }, i + 1)
    } else if c == 'F' || c == 'J' || c == 'L' || c == 'M' || c == 'N' || c == 'R' {
        (seq![c], i + 1)
    } else if c == 'Q' {
        (seq!['K'], i + 1)
    } else if c == 'V' {
        (seq!['F'], i + 1)
    } else if c == 'Z' {
        (seq!['S'], i + 1)
    } else {
        (seq![], i + 1)
    }
}

/// The code produced by the rules from position `i` to the end.
pub open spec fn metaphone_from(cs: Seq<char>, start: int, i: int) -> Seq<char>
    decreases cs.len() - i,
{
    if i < 0 || i >= cs.len() {
        seq![]
    } else {
        let (emitted, next) = metaphone_step(cs, start, i);
        emitted + metaphone_from(cs, start, next)
    }
}

/// The Metaphone code of a sequence of upper-case letters.
pub open spec fn metaphone_of_letters(cs: Seq<char>) -> Seq<char> {
    if cs.len() == 0 {
        seq![]
    } else {
        metaphone_from(cs, metaphone_start(cs), metaphone_start(cs))
    }
}

/// The Metaphone code of a string.
pub open spec fn metaphone_spec(s: Seq<char>) -> Seq<char> {
    metaphone_of_letters(upper_letters_spec(s))
}

/// The consonant codes Metaphone emits (`0` stands for theta).
pub open spec fn is_consonant_code(c: char) -> bool {
    c == 'B' || c == 'X' || c == 'S' || c == 'K' || c == 'J' || c == 'T' || c == 'F' || c == 'H'
        || c == 'L' || c == 'M' || c == 'N' || c == 'P' || c == 'R' || c == '0' || c == 'W' || c == 'Y'
}

proof fn lemma_step_output(cs: Seq<char>, start: int, i: int)
    requires 0 <= i < cs.len(),
    ensures
        metaphone_step(cs, start, i).1 > i,
        forall|k: int| 0 <= k < metaphone_step(cs, start, i).0.len() ==> {
            let c = #[trigger] metaphone_step(cs, start, i).0[k];
            is_consonant_code(c) || (i == start && k == 0 && is_vowel_spec(c))
        },
{
}

proof fn lemma_consonants_after_start(cs: Seq<char>, start: int, i: int)
    requires 0 <= start < i,
    ensures
        forall|k: int| 0 <= k < metaphone_from(cs, start, i).len()
            ==> is_consonant_code(#[trigger] metaphone_from(cs, start, i)[k]),
    decreases cs.len() - i,
{
    if 0 <= i < cs.len() {
        let (emitted, next) = metaphone_step(cs, start, i);
        lemma_step_output(cs, start, i);
        lemma_consonants_after_start(cs, start, next);
        let rest = metaphone_from(cs, start, next);
        assert forall|k: int| 0 <= k < (emitted + rest).len() implies is_consonant_code(#[trigger] (emitted + rest)[k]) by {
            if k >= emitted.len() {
                assert((emitted + rest)[k] == rest[k - emitted.len()]);
            } else {
                assert((emitted + rest)[k] == emitted[k]);
            }
        }
    }
}

/// A Metaphone code is made of consonant codes, except that a vowel may
/// open it (a word's initial vowel is kept).
pub proof fn law_metaphone_code_letters(s: Seq<char>)
    ensures
        forall|k: int| 0 <= k < metaphone_spec(s).len() ==>
            is_consonant_code(#[trigger] metaphone_spec(s)[k]) || (k == 0 && is_vowel_spec(metaphone_spec(s)[k])),
{
    let cs = upper_letters_spec(s);
    if cs.len() > 0 {
        let start = metaphone_start(cs);
        if start < cs.len() {
            let (emitted, next) = metaphone_step(cs, start, start);
            lemma_step_output(cs, start, start);
            lemma_consonants_after_start(cs, start, next);
            let rest = metaphone_from(cs, start, next);
            let code = emitted + rest;
            assert(metaphone_spec(s) == code);
            assert forall|k: int| 0 <= k < code.len() implies
                is_consonant_code(#[trigger] code[k]) || (k == 0 && is_vowel_spec(code[k])) by {
                if k >= emitted.len() {
                    assert(code[k] == rest[k - emitted.len()]);
                } else {
                    assert(code[k] == emitted[k]);
                }
            }
        }
    }
}

proof fn lemma_from_bounded(cs: Seq<char>, start: int, i: int)
    requires 0 <= i,
    ensures metaphone_from(cs, start, i).len() <= if i <= cs.len() { 2 * (cs.len() - i) } else { 0 },
    decreases cs.len() - i,
{
    if i < cs.len() {
        let (emitted, next) = metaphone_step(cs, start, i);
        lemma_step_output(cs, start, i);
        assert(emitted.len() <= 2);
        assert(next <= i + 2);
        lemma_from_bounded(cs, start, next);
    }
}

/// A Metaphone code has at most two code letters per letter of the word,
/// so a word without letters has an empty code.
pub proof fn law_metaphone_length(s: Seq<char>)
    ensures metaphone_spec(s).len() <= 2 * upper_letters_spec(s).len(),
{
    let cs = upper_letters_spec(s);
    if cs.len() > 0 {
        lemma_from_bounded(cs, metaphone_start(cs), metaphone_start(cs));
    }
}

/// The code depends on the word's letters alone, once upper-cased: two
/// words whose upper-cased letters agree have the same code, whatever else
/// (digits, punctuation, spaces) they hold.
pub proof fn law_metaphone_letters_only(s: Seq<char>, t: Seq<char>)
    requires upper_letters_spec(s) == upper_letters_spec(t),
    ensures metaphone_spec(s) == metaphone_spec(t),
{
}

/// On ASCII text, letter case and the characters that are not letters do
/// not change the code: the code of the text, of its lower-cased form and of
/// its letters alone is the same.
pub proof fn law_metaphone_ascii_case_and_letters(s: Seq<char>)
    ensures
        metaphone_of_letters(ascii_upper_letters(s.map_values(|c: char| ascii_lower(c))))
            == metaphone_of_letters(ascii_upper_letters(s)),
        metaphone_of_letters(ascii_upper_letters(s.filter(|c: char| ascii_alpha(c))))
            == metaphone_of_letters(ascii_upper_letters(s)),
{
    lemma_ascii_letters_ignore_case_and_others(s);
}

/// PH is coded as a single F, the H consumed: wherever a P that does not
/// repeat the letter before it is followed by H, the code goes on with `F`
/// and resumes after the H, so no `P` is emitted for it.
pub proof fn law_metaphone_ph_is_f(cs: Seq<char>, start: int, i: int)
    requires
        0 <= i,
        i + 1 < cs.len(),
        cs[i] == 'P',
        cs[i + 1] == 'H',
        i == 0 || cs[i - 1] != 'P',
    ensures
        metaphone_from(cs, start, i) == seq!['F'] + metaphone_from(cs, start, i + 2),
{
}

/// The letter rules, each read as how the code goes on from position `i`
/// (encoding began at `start`); `next` and `next2` are the letters after
/// `cs[i]`, and a rule for a letter other than C applies when it does not
/// repeat the letter before it (a repeated letter other than C adds
/// nothing).
pub proof fn law_metaphone_letter_rules(cs: Seq<char>, start: int, i: int)
    requires 0 <= i < cs.len(),
    ensures ({
        let c = cs[i];
        let fresh = i == 0 || cs[i - 1] != c;
        let next = char_at(cs, i + 1);
        let next2 = char_at(cs, i + 2);
        let vowel = c == 'A' || c == 'E' || c == 'I' || c == 'O' || c == 'U';
        let from = metaphone_from(cs, start, i);
        &&& c != 'C' && !fresh ==> from == metaphone_from(cs, start, i + 1)
        &&& fresh && vowel && i == start ==> from == seq![c] + metaphone_from(cs, start, i + 1)
        &&& fresh && vowel && i != start ==> from == metaphone_from(cs, start, i + 1)
        &&& fresh && c == 'T' && next == 'H' ==> from == seq!['0'] + metaphone_from(cs, start, i + 2)
        &&& fresh && c == 'S' && next == 'H' ==> from == seq!['X'] + metaphone_from(cs, start, i + 2)
        &&& c == 'C' && next == 'H' ==> from == seq!['X'] + metaphone_from(cs, start, i + 2)
        &&& c == 'C' && next == 'I' && (next2 == 'A' || next2 == 'O') ==> from == seq!['X'] + metaphone_from(cs, start, i + 1)
        &&& c == 'C' && next == 'K' ==> from == seq!['K'] + metaphone_from(cs, start, i + 2)
        &&& c == 'C' && next != 'H' && next != 'K' && next != 'I' && next != 'E' && next != 'Y'
            ==> from == seq!['K'] + metaphone_from(cs, start, i + 1)
        &&& fresh && c == 'X' ==> from == seq!['K', 'S'] + metaphone_from(cs, start, i + 1)
        &&& fresh && c == 'Q' ==> from == seq!['K'] + metaphone_from(cs, start, i + 1)
        &&& fresh && c == 'V' ==> from == seq!['F'] + metaphone_from(cs, start, i + 1)
        &&& fresh && c == 'Z' ==> from == seq!['S'] + metaphone_from(cs, start, i + 1)
        &&& fresh && (c == 'F' || c == 'J' || c == 'L' || c == 'M' || c == 'N' || c == 'R')
            ==> from == seq![c] + metaphone_from(cs, start, i + 1)
        &&& fresh && c == 'D' && next == 'G' && (next2 == 'E' || next2 == 'I' || next2 == 'Y')
            ==> from == seq!['J'] + metaphone_from(cs, start, i + 2)
        &&& fresh && c == 'D' && !(next == 'G' && (next2 == 'E' || next2 == 'I' || next2 == 'Y'))
            ==> from == seq!['T'] + metaphone_from(cs, start, i + 1)
        &&& fresh && c == 'P' && next != 'H' ==> from == seq!['P'] + metaphone_from(cs, start, i + 1)
        &&& fresh && c == 'B' && !(i > 0 && cs[i - 1] == 'M' && i + 1 == cs.len())
            ==> from == seq!['B'] + metaphone_from(cs, start, i + 1)
        &&& fresh && c == 'B' && i > 0 && cs[i - 1] == 'M' && i + 1 == cs.len() ==> from == Seq::<char>::empty()
    }),
{
    assert(metaphone_from(cs, start, i) == metaphone_step(cs, start, i).0
        + metaphone_from(cs, start, metaphone_step(cs, start, i).1));
    if i + 1 == cs.len() {
        assert(metaphone_from(cs, start, i + 1) == Seq::<char>::empty());
        assert(Seq::<char>::empty() + Seq::<char>::empty() =~= Seq::<char>::empty());
    }
}

/// A word whose letters open with PH has a code that opens with F, the rest
/// coded from the letter after the H.
pub proof fn law_metaphone_initial_ph(cs: Seq<char>)
    requires
        cs.len() >= 2,
        cs[0] == 'P',
        cs[1] == 'H',
    ensures
        metaphone_of_letters(cs) == seq!['F'] + metaphone_from(cs, 0, 2),
{
    assert(metaphone_start(cs) == 0);
    law_metaphone_ph_is_f(cs, 0, 0);
}

fn is_vowel(c: char) -> (r: bool)
    ensures r == is_vowel_spec(c),
{
    c == 'A' || c == 'E' || c == 'I' || c == 'O' || c == 'U'
}

fn at(chars: &Vec<char>, i: usize) -> (r: char)
    ensures r == char_at(chars@, i as int),
{
    if i < chars.len() { chars[i] } else { '\0' }
}

fn is_front_letter(c: char) -> (r: bool)
    ensures r == is_front(c),
{
    c == 'E' || c == 'I' || c == 'Y'
}

/// Applies the rule at position `i`, appending its code letters to `out`.
fn apply_rule(cs: &Vec<char>, start: usize, i: usize, out: &mut Vec<char>) -> (next: usize)
    requires
        i < cs.len(),
    ensures
        final(out)@ == old(out)@ + metaphone_step(cs@, start as int, i as int).0,
        next as int == metaphone_step(cs@, start as int, i as int).1,
{
    let c = cs[i];
    let prev = if i > 0 { at(cs, i - 1) } else { '\0' };
    let next = at(cs, i + 1);
    let next2 = if i + 1 < cs.len() { at(cs, i + 2) } else { '\0' };
    let last = i + 1 == cs.len();
    let ghost before = out@;
    if c != 'C' && prev == c {
        assert(out@ == before + seq![]);
        return i + 1;
    }
    if is_vowel(c) {
        if i == start {
            out.push(c);
        }
        assert(out@ =~= before + metaphone_step(cs@, start as int, i as int).0);
        return i + 1;
    }
    let mut adv: usize = 1;
    if c == 'B' {
        if !(prev == 'M' && last) {
            out.push('B');
        }
    } else if c == 'C' {
        if next == 'I' && (next2 == 'A' || next2 == 'O') {
            out.push('X');
        } else if next == 'H' {
            out.push('X');
            adv = 2;
        } else if prev == 'S' && is_front_letter(next) {
        } else if is_front_letter(next) {
            out.push('S');
        } else if next == 'K' {
            out.push('K');
            adv = 2;
        } else {
            out.push('K');
        }
    } else if c == 'D' {
        if next == 'G' && is_front_letter(next2) {
            out.push('J');
            adv = 2;
        } else {
            out.push('T');
        }
    } else if c == 'G' {
        let silent = (next == 'H' && !is_vowel(next2))
            || (next == 'N' && (last || (next2 == 'E' && i + 3 == cs.len())))
            || (prev == 'D' && is_front_letter(next));
        if !silent {
            if next == 'H' {
                if is_vowel(next2) {
                    out.push('K');
                }
                adv = 2;
            } else if is_front_letter(next) {
                out.push('J');
            } else if prev != 'G' {
                out.push('K');
            }
        } else if next == 'H' {
            adv = 2;
        }
    } else if c == 'H' {
        if is_vowel(next) && (i == 0 || !is_vowel(prev)) {
            out.push('H');
        }
    } else if c == 'K' {
        if prev != 'C' {
            out.push('K');
        }
    } else if c == 'P' {
        if next == 'H' {
            out.push('F');
            adv = 2;
        } else {
            out.push('P');
        }
    } else if c == 'S' {
        if next == 'H' {
            out.push('X');
            adv = 2;
        } else if next == 'I' && (next2 == 'O' || next2 == 'A') {
            out.push('X');
        } else {
            out.push('S');
        }
    } else if c == 'T' {
        if next == 'H' {
            out.push('0');
            adv = 2;
        } else if next == 'I' && (next2 == 'A' || next2 == 'O') {
            out.push('X');
        } else if next != 'C' || next2 != 'H' {
            out.push('T');
        }
    } else if c == 'W' {
        if i == 0 || is_vowel(next) {
            out.push('W');
        }
    } else if c == 'X' {
        out.push('K');
        out.push('S');
    } else if c == 'Y' {
        if is_vowel(next) {
            out.push('Y');
        }
    } else if c == 'F' || c == 'J' || c == 'L' || c == 'M' || c == 'N' || c == 'R' {
        out.push(c);
    } else if c == 'Q' {
        out.push('K');
    } else if c == 'V' {
        out.push('F');
    } else if c == 'Z' {
        out.push('S');
    }
    assert(out@ =~= before + metaphone_step(cs@, start as int, i as int).0);
    i + adv
}

/// Metaphone (Philips, 1990): the phonetic skeleton of `s`.
pub fn metaphone(s: &str) -> (r: String)
    ensures
        r@ == metaphone_spec(s@),
        all_ascii(s@) ==> r@ == metaphone_of_letters(ascii_upper_letters(s@)),
{
    let chars = upper_letters(s);
    if chars.len() == 0 {
        return String::new();
    }
    let first = chars[0];
    let second = at(&chars, 1);
    let start: usize = if (first == 'A' && second == 'E') || (first == 'G' && second == 'N')
        || (first == 'K' && second == 'N') || (first == 'P' && second == 'N')
        || (first == 'W' && second == 'R') {
        1
    } else {
        0
    };
    let ghost total = metaphone_from(chars@, start as int, start as int);
    let mut out: Vec<char> = Vec::new();
    let mut i: usize = start;
    assert(out@ + metaphone_from(chars@, start as int, i as int) =~= total);
    while i < chars.len()
        invariant
            start <= 1,
            i <= chars.len() + 1,
            out@ + metaphone_from(chars@, start as int, i as int) == total,
        decreases chars.len() - i,
    {
        let ghost o = out@;
        let next = apply_rule(&chars, start, i, &mut out);
        proof {
            let (emitted, n) = metaphone_step(chars@, start as int, i as int);
            assert(metaphone_from(chars@, start as int, i as int)
                == emitted + metaphone_from(chars@, start as int, n));
            assert(out@ + metaphone_from(chars@, start as int, next as int)
                =~= o + metaphone_from(chars@, start as int, i as int));
        }
        i = next;
    }
    assert(metaphone_from(chars@, start as int, i as int) =~= seq![]);
    assert(out@ =~= total);
    string_from_chars(&out)
}

} // verus!
