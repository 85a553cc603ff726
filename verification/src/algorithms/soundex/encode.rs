//! American Soundex encoding.
use vstd::prelude::*;

use crate::text::{
    all_ascii, ascii_alpha, ascii_lower, ascii_upper_letters, lemma_ascii_letters_ignore_case_and_others,
    string_from_chars, upper_letters, upper_letters_spec,
};

verus! {

/// The Soundex digit of an upper-case letter; `'0'` for vowels and for
/// every letter without a code.
pub open spec fn soundex_digit(c: char) -> char {
    if c == 'B' || c == 'F' || c == 'P' || c == 'V' {
        '1'
    } else if c == 'C' || c == 'G' || c == 'J' || c == 'K' || c == 'Q' || c == 'S' || c == 'X' || c == 'Z' {
        '2'
    } else if c == 'D' || c == 'T' {
        '3'
    } else if c == 'L' {
        '4'
    } else if c == 'M' || c == 'N' {
        '5'
    } else if c == 'R' {
        '6'
    } else {
        '0'
    }
}

/// The digits that the letters from position `i` on contribute, given the
/// code `prev` of the last coded letter and room for `room` more digits.
///
/// `H` and `W` are transparent: they do not separate two letters with the
/// same code. Vowels (code `'0'`) do separate them.
pub open spec fn soundex_digits(cs: Seq<char>, i: int, prev: char, room: int) -> Seq<char>
    decreases cs.len() - i,
{
    if i < 0 || i >= cs.len() || room <= 0 {
        seq![]
    } else {
        let c = cs[i];
        if c == 'H' || c == 'W' {
            soundex_digits(cs, i + 1, prev, room)
        } else {
            let code = soundex_digit(c);
            if code == '0' {
                soundex_digits(cs, i + 1, '0', room)
            } else if code != prev {
                seq![code] + soundex_digits(cs, i + 1, code, room - 1)
            } else {
                soundex_digits(cs, i + 1, prev, room)
            }
        }
    }
}

/// `n` copies of `'0'`.
pub open spec fn zeros(n: int) -> Seq<char> {
    Seq::new(if n > 0 { n as nat } else { 0 }, |k: int| '0')
}

/// The Soundex code of a string.
pub open spec fn soundex_spec(s: Seq<char>) -> Seq<char> {
    soundex_of_letters(upper_letters_spec(s))
}

/// The Soundex code of a sequence of upper-case letters.
pub open spec fn soundex_of_letters(cs: Seq<char>) -> Seq<char> {
    if cs.len() == 0 {
        seq![]
    } else {
        let first = cs[0];
        let digits = soundex_digits(cs, 1, soundex_digit(first), 3);
        seq![first] + digits + zeros(3 - digits.len())
    }
}

fn soundex_code(c: char) -> (r: char)
    ensures r == soundex_digit(c),
{
    if c == 'B' || c == 'F' || c == 'P' || c == 'V' {
        '1'
    } else if c == 'C' || c == 'G' || c == 'J' || c == 'K' || c == 'Q' || c == 'S' || c == 'X' || c == 'Z' {
        '2'
    } else if c == 'D' || c == 'T' {
        '3'
    } else if c == 'L' {
        '4'
    } else if c == 'M' || c == 'N' {
        '5'
    } else if c == 'R' {
        '6'
    } else {
        '0'
    }
}

/// American Soundex: a four-character code, the first letter followed by
/// three digits, padded with `'0'`.
///
/// H and W are transparent (do not break adjacency of same-coded consonants).
/// Vowels break adjacency (separating two consonants with the same code).
pub fn soundex(s: &str) -> (r: String)
    ensures
        r@ == soundex_spec(s@),
        all_ascii(s@) ==> r@ == soundex_of_letters(ascii_upper_letters(s@)),
{
    let chars = upper_letters(s);
    if chars.len() == 0 {
        return String::new();
    }
    let first = chars[0];
    let mut room: usize = 3;
    let mut out: Vec<char> = Vec::new();
    out.push(first);
    let mut prev = soundex_code(first);
    let ghost total = soundex_digits(chars@, 1, soundex_digit(first), room as int);
    let mut i: usize = 1;
    while i < chars.len() && room > 0
        invariant
            1 <= i <= chars.len(),
            out@.len() >= 1,
            out@[0] == first,
            out@.drop_first() + soundex_digits(chars@, i as int, prev, room as int) == total,
        decreases chars.len() - i,
    {
        let c = chars[i];
        let ghost before = out@;
        if c == 'H' || c == 'W' {
        } else {
            let code = soundex_code(c);
            if code == '0' {
                prev = '0';
            } else if code != prev {
                out.push(code);
                assert(out@.drop_first() =~= before.drop_first() + seq![code]);
                prev = code;
                room -= 1;
            }
        }
        i += 1;
    }
    assert(soundex_digits(chars@, i as int, prev, room as int) =~= seq![]);
    let digits_len = out.len() - 1;
    assert(out@ =~= seq![first] + total);
    proof { lemma_digits(chars@, 1, soundex_digit(first), 3); }
    if digits_len < 3 {
        let pad = 3 - digits_len;
        let mut k: usize = 0;
        let ghost base = out@;
        while k < pad
            invariant
                k <= pad,
                out@ == base + zeros(k as int),
            decreases pad - k,
        {
            out.push('0');
            assert(zeros(k as int + 1) =~= zeros(k as int).push('0'));
            k += 1;
        }
        assert(zeros(pad as int) =~= zeros(3 - total.len()));
    } else {
        assert(zeros(3 - total.len()) =~= seq![]);
        assert(out@ =~= seq![first] + total + seq![]);
    }
    string_from_chars(&out)
}

proof fn lemma_digits(cs: Seq<char>, i: int, prev: char, room: int)
    ensures
        soundex_digits(cs, i, prev, room).len() <= if room > 0 { room } else { 0 },
        forall|k: int| 0 <= k < soundex_digits(cs, i, prev, room).len()
            ==> '1' <= #[trigger] soundex_digits(cs, i, prev, room)[k] <= '6',
    decreases cs.len() - i,
{
    if !(i < 0 || i >= cs.len() || room <= 0) {
        let c = cs[i];
        if c == 'H' || c == 'W' {
            lemma_digits(cs, i + 1, prev, room);
        } else {
            let code = soundex_digit(c);
            if code == '0' {
                lemma_digits(cs, i + 1, '0', room);
            } else if code != prev {
                lemma_digits(cs, i + 1, code, room - 1);
                let rest = soundex_digits(cs, i + 1, code, room - 1);
                assert forall|k: int| 0 <= k < (seq![code] + rest).len() implies '1' <= #[trigger] (seq![code] + rest)[k] <= '6' by {
                    if k > 0 {
                        assert((seq![code] + rest)[k] == rest[k - 1]);
                    }
                }
            } else {
                lemma_digits(cs, i + 1, prev, room);
            }
        }
    }
}

/// The Soundex code of a word with a letter has four characters: its first
/// letter upper-cased, then three digits: the codes, then `'0'` padding.
pub proof fn law_soundex_shape(s: Seq<char>)
    requires upper_letters_spec(s).len() > 0,
    ensures
        soundex_spec(s).len() == 4,
        soundex_spec(s)[0] == upper_letters_spec(s)[0],
        forall|k: int| 1 <= k < 4 ==> '0' <= #[trigger] soundex_spec(s)[k] <= '6',
        forall|j: int, k: int| 1 <= j < k < 4 && #[trigger] soundex_spec(s)[j] == '0' ==> #[trigger] soundex_spec(s)[k] == '0',
{
    let cs = upper_letters_spec(s);
    let first = cs[0];
    let digits = soundex_digits(cs, 1, soundex_digit(first), 3);
    lemma_digits(cs, 1, soundex_digit(first), 3);
    let code = seq![first] + digits + zeros(3 - digits.len());
    assert forall|k: int| 1 <= k < 4 implies '0' <= #[trigger] code[k] <= '6' && (code[k] == '0' <==> k > digits.len()) by {
        if k <= digits.len() {
            assert(code[k] == digits[k - 1]);
        } else {
            assert(code[k] == zeros(3 - digits.len())[k - 1 - digits.len()]);
        }
    }
}

/// On ASCII text, letter case and the characters that are not letters do
/// not change the code.
pub proof fn law_soundex_ascii_case_and_letters(s: Seq<char>)
    ensures
        soundex_of_letters(ascii_upper_letters(s.map_values(|c: char| ascii_lower(c))))
            == soundex_of_letters(ascii_upper_letters(s)),
        soundex_of_letters(ascii_upper_letters(s.filter(|c: char| ascii_alpha(c))))
            == soundex_of_letters(ascii_upper_letters(s)),
{
    lemma_ascii_letters_ignore_case_and_others(s);
}

/// The American Soundex digit table, read off the code: after a leading
/// vowel, the next letter gives the first digit: B, F, P, V give 1; C, G, J,
/// K, Q, S, X, Z give 2; D, T give 3; L gives 4; M, N give 5; R gives 6.
pub proof fn law_soundex_digit_table(cs: Seq<char>)
    requires
        cs.len() >= 2,
        cs[0] == 'A' || cs[0] == 'E' || cs[0] == 'I' || cs[0] == 'O' || cs[0] == 'U',
    ensures
        soundex_of_letters(cs).len() == 4,
        soundex_of_letters(cs)[0] == cs[0],
        (cs[1] == 'B' || cs[1] == 'F' || cs[1] == 'P' || cs[1] == 'V') ==> soundex_of_letters(cs)[1] == '1',
        (cs[1] == 'C' || cs[1] == 'G' || cs[1] == 'J' || cs[1] == 'K' || cs[1] == 'Q' || cs[1] == 'S'
            || cs[1] == 'X' || cs[1] == 'Z') ==> soundex_of_letters(cs)[1] == '2',
        (cs[1] == 'D' || cs[1] == 'T') ==> soundex_of_letters(cs)[1] == '3',
        cs[1] == 'L' ==> soundex_of_letters(cs)[1] == '4',
        (cs[1] == 'M' || cs[1] == 'N') ==> soundex_of_letters(cs)[1] == '5',
        cs[1] == 'R' ==> soundex_of_letters(cs)[1] == '6',
{
    let digits = soundex_digits(cs, 1, '0', 3);
    lemma_digits(cs, 1, '0', 3);
    let code = seq![cs[0]] + digits + zeros(3 - digits.len());
    assert(soundex_of_letters(cs) == code);
    if soundex_digit(cs[1]) != '0' {
        assert(digits == seq![soundex_digit(cs[1])] + soundex_digits(cs, 2, soundex_digit(cs[1]), 2));
        assert(code[1] == digits[0]);
    }
}

/// How the letters after the first feed the digits: H and W are passed
/// over without breaking a run of equal codes; a vowel (A, E, I, O, U, Y)
/// adds nothing but ends such a run; a letter with the same code as the
/// previous coded letter, with only H or W between, adds nothing; and once
/// three digits are in, nothing more is added.
pub proof fn law_soundex_digit_rules(cs: Seq<char>, i: int, prev: char, room: int)
    requires 0 <= i < cs.len(),
    ensures
        room <= 0 ==> soundex_digits(cs, i, prev, room) == Seq::<char>::empty(),
        room > 0 && (cs[i] == 'H' || cs[i] == 'W')
            ==> soundex_digits(cs, i, prev, room) == soundex_digits(cs, i + 1, prev, room),
        room > 0 && (cs[i] == 'A' || cs[i] == 'E' || cs[i] == 'I' || cs[i] == 'O' || cs[i] == 'U' || cs[i] == 'Y')
            ==> soundex_digits(cs, i, prev, room) == soundex_digits(cs, i + 1, '0', room),
        room > 0 && cs[i] != 'H' && cs[i] != 'W' && soundex_digit(cs[i]) != '0' && soundex_digit(cs[i]) == prev
            ==> soundex_digits(cs, i, prev, room) == soundex_digits(cs, i + 1, prev, room),
        room > 0 && cs[i] != 'H' && cs[i] != 'W' && soundex_digit(cs[i]) != '0' && soundex_digit(cs[i]) != prev
            ==> soundex_digits(cs, i, prev, room)
                == seq![soundex_digit(cs[i])] + soundex_digits(cs, i + 1, soundex_digit(cs[i]), room - 1),
{
}

/// How many positions two codes agree on (compared up to the shorter one).
pub open spec fn agreements(a: Seq<char>, b: Seq<char>, k: int) -> nat
    decreases k,
{
    if k <= 0 {
        0
    } else {
        agreements(a, b, k - 1) + if a[k - 1] == b[k - 1] { 1nat } else { 0nat }
    }
}

/// Agreement does not depend on the order of the two codes.
pub proof fn lemma_agreements_symmetric(a: Seq<char>, b: Seq<char>, k: int)
    ensures agreements(a, b, k) == agreements(b, a, k),
    decreases k,
{
    if k > 0 {
        lemma_agreements_symmetric(a, b, k - 1);
    }
}

/// Position-wise agreement between two codes: the count of positions, up to
/// the shorter code, on which they hold the same character.
pub fn code_agreements(a: &Vec<char>, b: &Vec<char>) -> (r: usize)
    ensures r == agreements(a@, b@, if a.len() <= b.len() { a.len() as int } else { b.len() as int }),
{
    let common = if a.len() <= b.len() { a.len() } else { b.len() };
    let mut count: usize = 0;
    let mut k: usize = 0;
    while k < common
        invariant
            k <= common,
            common <= a.len(),
            common <= b.len(),
            count == agreements(a@, b@, k as int),
            count <= k,
        decreases common - k,
    {
        if a[k] == b[k] {
            count += 1;
        }
        k += 1;
    }
    count
}

} // verus!
