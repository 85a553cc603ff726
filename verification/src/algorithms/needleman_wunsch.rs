//! Drug-name-tuned character substitution matrix for Needleman-Wunsch
//! global alignment.
//!
//! Scores reflect English phonetic confusability relevant to pharmaceutical
//! naming conventions, similar in spirit to BLOSUM but for drug names:
//!
//! - Same character: +2
//! - Phonetically close pair: +1 (e.g. f/v, d/t, b/p, m/n, s/z, c/k, i/y)
//! - Unrelated: −1
//!
//! Letters are compared case-insensitively; the matrix is symmetric.
use vstd::prelude::*;

use crate::text::{ascii_lower, to_ascii_lowercase};

verus! {

/// Whether two distinct lowercase letters are a confusable pair.
pub open spec fn confusable(a: char, b: char) -> bool {
    let pair = |x: char, y: char| (a == x && b == y) || (a == y && b == x);
    ||| pair('b', 'p')
    ||| pair('d', 't')
    ||| pair('f', 'v')
    ||| pair('m', 'n')
    ||| pair('s', 'z')
    ||| pair('c', 'k')
    ||| pair('g', 'j')
    ||| pair('l', 'r')
    ||| pair('i', 'y')
    ||| pair('a', 'e')
    ||| pair('o', 'u')
    ||| pair('e', 'i')
    ||| pair('c', 'q')
    ||| pair('x', 'z')
    ||| pair('p', 'h')
}

pub open spec fn is_ascii_letter(c: char) -> bool {
    'a' <= c && c <= 'z'
}

/// The substitution score of two characters.
pub open spec fn substitution_score(a: char, b: char) -> int {
    let (x, y) = (ascii_lower(a), ascii_lower(b));
    if is_ascii_letter(x) && is_ascii_letter(y) {
        if x == y { 2 } else if confusable(x, y) { 1 } else { -1 }
    } else if x == y {
        2
    } else {
        -1
    }
}

/// The drug-name substitution matrix.
#[derive(Debug, Clone, Copy, Default)]
pub struct DrugNameMatrix;

fn is_confusable(a: char, b: char) -> (r: bool)
    ensures r == confusable(a, b),
{
    let pairs: [(char, char); 15] = [
        ('b', 'p'), ('d', 't'), ('f', 'v'), ('m', 'n'), ('s', 'z'), ('c', 'k'), ('g', 'j'), ('l', 'r'),
        ('i', 'y'), ('a', 'e'), ('o', 'u'), ('e', 'i'), ('c', 'q'), ('x', 'z'), ('p', 'h'),
    ];
    let ghost listed = pairs@;
    let mut k: usize = 0;
    while k < 15
        invariant
            k <= 15,
            pairs@ == listed,
            listed == seq![
                ('b', 'p'), ('d', 't'), ('f', 'v'), ('m', 'n'), ('s', 'z'), ('c', 'k'), ('g', 'j'), ('l', 'r'),
                ('i', 'y'), ('a', 'e'), ('o', 'u'), ('e', 'i'), ('c', 'q'), ('x', 'z'), ('p', 'h'),
            ],
            forall|q: int| 0 <= q < k ==> !((a == (#[trigger] listed[q]).0 && b == listed[q].1) || (a == listed[q].1 && b == listed[q].0)),
        decreases 15 - k,
    {
        let (x, y) = pairs[k];
        if (a == x && b == y) || (a == y && b == x) {
            return true;
        }
        k += 1;
    }
    assert(!confusable(a, b)) by {
        assert(listed[0] == ('b', 'p'));
        assert(listed[1] == ('d', 't'));
        assert(listed[2] == ('f', 'v'));
        assert(listed[3] == ('m', 'n'));
        assert(listed[4] == ('s', 'z'));
        assert(listed[5] == ('c', 'k'));
        assert(listed[6] == ('g', 'j'));
        assert(listed[7] == ('l', 'r'));
        assert(listed[8] == ('i', 'y'));
        assert(listed[9] == ('a', 'e'));
        assert(listed[10] == ('o', 'u'));
        assert(listed[11] == ('e', 'i'));
        assert(listed[12] == ('c', 'q'));
        assert(listed[13] == ('x', 'z'));
        assert(listed[14] == ('p', 'h'));
    }
    false
}

impl DrugNameMatrix {
    pub fn new() -> (r: Self) {
        DrugNameMatrix
    }

    /// The substitution score of `a` against `b`.
    pub fn score(&self, a: char, b: char) -> (r: i32)
        ensures r == substitution_score(a, b),
    {
        let x = to_ascii_lowercase(a);
        let y = to_ascii_lowercase(b);
        if 'a' <= x && x <= 'z' && 'a' <= y && y <= 'z' {
            if x == y {
                2
            } else if is_confusable(x, y) {
                1
            } else {
                -1
            }
        } else if x == y {
            2
        } else {
            -1
        }
    }

    /// Self-alignment score for a string — the maximum achievable score:
    /// every character scores 2 against itself.
    pub fn self_score(&self, chars: &Vec<char>) -> (r: u128)
        ensures r == 2 * chars.len(),
    {
        let mut total: u128 = 0;
        let mut i: usize = 0;
        while i < chars.len()
            invariant
                i <= chars.len(),
                total == 2 * i,
            decreases chars.len() - i,
        {
            let s = self.score(chars[i], chars[i]);
            assert(s == 2);
            total = total + 2;
            i += 1;
        }
        total
    }
}

/// The matrix is symmetric, and every character scores 2 against itself.
pub proof fn law_matrix_symmetric(a: char, b: char)
    ensures
        substitution_score(a, b) == substitution_score(b, a),
        substitution_score(a, a) == 2,
{
}

/// The phonetically close pairs score `+1` in either order and in either
/// letter case: b/p, d/t, f/v, m/n, s/z, c/k, g/j, l/r, i/y, a/e, o/u, e/i,
/// c/q, x/z and p/h.
pub proof fn law_confusable_pairs_score_one(a: char, b: char)
    requires
        ({
            let (x, y) = (ascii_lower(a), ascii_lower(b));
            (x == 'b' && y == 'p') || (x == 'p' && y == 'b')
            || (x == 'd' && y == 't') || (x == 't' && y == 'd')
            || (x == 'f' && y == 'v') || (x == 'v' && y == 'f')
            || (x == 'm' && y == 'n') || (x == 'n' && y == 'm')
            || (x == 's' && y == 'z') || (x == 'z' && y == 's')
            || (x == 'c' && y == 'k') || (x == 'k' && y == 'c')
            || (x == 'g' && y == 'j') || (x == 'j' && y == 'g')
            || (x == 'l' && y == 'r') || (x == 'r' && y == 'l')
            || (x == 'i' && y == 'y') || (x == 'y' && y == 'i')
            || (x == 'a' && y == 'e') || (x == 'e' && y == 'a')
            || (x == 'o' && y == 'u') || (x == 'u' && y == 'o')
            || (x == 'e' && y == 'i') || (x == 'i' && y == 'e')
            || (x == 'c' && y == 'q') || (x == 'q' && y == 'c')
            || (x == 'x' && y == 'z') || (x == 'z' && y == 'x')
            || (x == 'p' && y == 'h') || (x == 'h' && y == 'p')
        }),
    ensures
        substitution_score(a, b) == 1,
        substitution_score(b, a) == 1,
{
}

/// Two different letters outside the close pairs are unrelated and score
/// `-1`, in either letter case; the same letter scores `+2`.
pub proof fn law_other_letters_score(a: char, b: char)
    requires
        ('a' <= ascii_lower(a) <= 'z') && ('a' <= ascii_lower(b) <= 'z'),
    ensures
        ascii_lower(a) == ascii_lower(b) ==> substitution_score(a, b) == 2,
        ({
            let (x, y) = (ascii_lower(a), ascii_lower(b));
            x != y && !((x == 'b' && y == 'p') || (x == 'p' && y == 'b')
                || (x == 'd' && y == 't') || (x == 't' && y == 'd')
                || (x == 'f' && y == 'v') || (x == 'v' && y == 'f')
                || (x == 'm' && y == 'n') || (x == 'n' && y == 'm')
                || (x == 's' && y == 'z') || (x == 'z' && y == 's')
                || (x == 'c' && y == 'k') || (x == 'k' && y == 'c')
                || (x == 'g' && y == 'j') || (x == 'j' && y == 'g')
                || (x == 'l' && y == 'r') || (x == 'r' && y == 'l')
                || (x == 'i' && y == 'y') || (x == 'y' && y == 'i')
                || (x == 'a' && y == 'e') || (x == 'e' && y == 'a')
                || (x == 'o' && y == 'u') || (x == 'u' && y == 'o')
                || (x == 'e' && y == 'i') || (x == 'i' && y == 'e')
                || (x == 'c' && y == 'q') || (x == 'q' && y == 'c')
                || (x == 'x' && y == 'z') || (x == 'z' && y == 'x')
                || (x == 'p' && y == 'h') || (x == 'h' && y == 'p'))
        }) ==> substitution_score(a, b) == -1,
{
}

} // verus!
