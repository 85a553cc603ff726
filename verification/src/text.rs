//! Character-level text helpers shared by the algorithms.
use vstd::prelude::*;

verus! {

/// ASCII lowercase of a single character; every other character is unchanged.
pub open spec fn ascii_lower(c: char) -> char {
    if 'A' <= c && c <= 'Z' { ((c as u32) + 32) as char } else { c }
}

/// ASCII uppercase of a single character; every other character is unchanged.
pub open spec fn ascii_upper(c: char) -> char {
    if 'a' <= c && c <= 'z' { ((c as u32) - 32) as char } else { c }
}

pub fn to_ascii_lowercase(c: char) -> (r: char)
    ensures r == ascii_lower(c),
{
    if 'A' <= c && c <= 'Z' {
        let b: u8 = c as u8;
        (b + 32) as char
    } else {
        c
    }
}

/// The characters of a string slice, in order.
pub fn chars_of(s: &str) -> (v: Vec<char>)
    ensures v@ == s@,
{
    let mut v: Vec<char> = Vec::new();
    for c in it: s.chars()
        invariant
            v@ == it.seq().take(it.index() as int),
    {
        v.push(c);
    }
    v
}


/// What `str::to_lowercase` returns for a string with these characters:
/// the Unicode lowercase mapping, which depends on the characters alone.
pub uninterp spec fn unicode_lowercase(s: Seq<char>) -> Seq<char>;

/// What `str::to_uppercase` returns for a string with these characters:
/// the Unicode uppercase mapping, which depends on the characters alone.
pub uninterp spec fn unicode_uppercase(s: Seq<char>) -> Seq<char>;

/// What `char::is_alphabetic` answers: whether the character has the
/// Unicode `Alphabetic` property.
pub uninterp spec fn unicode_alphabetic(c: char) -> bool;

/// Whether every character is ASCII.
pub open spec fn all_ascii(s: Seq<char>) -> bool {
    forall|i: int| 0 <= i < s.len() ==> (#[trigger] s[i] as u32) < 128
}

/// Calls `str::to_lowercase`. The contract claims that the result is the
/// named Unicode lowercase mapping of the input's characters, and that on
/// ASCII text that mapping is the ASCII one, character for character (the
/// Unicode case mapping of every ASCII character is its ASCII case map). The
/// mapping beyond ASCII (which may change the length) is left unsaid.
#[verifier::external_body]
pub(crate) fn str_to_lowercase(s: &str) -> (r: String)
    ensures
        r@ == unicode_lowercase(s@),
        all_ascii(s@) ==> r@ == s@.map_values(|c: char| ascii_lower(c)),
{
    s.to_lowercase()
}

/// Calls `str::to_uppercase`. The contract claims that the result is the
/// named Unicode uppercase mapping of the input's characters, and that on
/// ASCII text that mapping is the ASCII one, character for character. The
/// mapping beyond ASCII is left unsaid.
#[verifier::external_body]
pub(crate) fn str_to_uppercase(s: &str) -> (r: String)
    ensures
        r@ == unicode_uppercase(s@),
        all_ascii(s@) ==> r@ == s@.map_values(|c: char| ascii_upper(c)),
{
    s.to_uppercase()
}

/// Calls `char::is_alphabetic`. Besides naming the answer, the contract
/// claims what the documentation of the Unicode `Alphabetic` property
/// plainly gives for ASCII: the 52 ASCII letters are alphabetic and no
/// other ASCII character is.
#[verifier::external_body]
pub(crate) fn char_is_alphabetic(c: char) -> (r: bool)
    ensures
        r == unicode_alphabetic(c),
        (c as u32) < 128 ==> (r <==> (('a' <= c && c <= 'z') || ('A' <= c && c <= 'Z'))),
{
    c.is_alphabetic()
}

/// Whether `c` has the Unicode `White_Space` property, which is what
/// `char::is_whitespace` answers: tab through carriage return, space, next
/// line, no-break space, ogham space mark, the spaces from en quad to hair
/// space, line and paragraph separators, narrow no-break space, medium
/// mathematical space and ideographic space.
pub open spec fn unicode_whitespace(c: char) -> bool {
    let v = c as u32;
    (0x09 <= v <= 0x0D) || v == 0x20 || v == 0x85 || v == 0xA0 || v == 0x1680
        || (0x2000 <= v <= 0x200A) || v == 0x2028 || v == 0x2029 || v == 0x202F
        || v == 0x205F || v == 0x3000
}

/// Whether `c` is whitespace, in the sense of `unicode_whitespace`.
pub fn is_white_space(c: char) -> (r: bool)
    ensures r == unicode_whitespace(c),
{
    let v = c as u32;
    (0x09 <= v && v <= 0x0D) || v == 0x20 || v == 0x85 || v == 0xA0 || v == 0x1680
        || (0x2000 <= v && v <= 0x200A) || v == 0x2028 || v == 0x2029 || v == 0x202F
        || v == 0x205F || v == 0x3000
}

/// The characters without their leading whitespace.
pub open spec fn trimmed_start(s: Seq<char>) -> Seq<char>
    decreases s.len(),
{
    if s.len() > 0 && unicode_whitespace(s[0]) { trimmed_start(s.drop_first()) } else { s }
}

/// The characters without their trailing whitespace.
pub open spec fn trimmed_end(s: Seq<char>) -> Seq<char>
    decreases s.len(),
{
    if s.len() > 0 && unicode_whitespace(s.last()) { trimmed_end(s.drop_last()) } else { s }
}

/// The characters without leading and trailing whitespace.
pub open spec fn trimmed(s: Seq<char>) -> Seq<char> {
    trimmed_end(trimmed_start(s))
}

/// The characters of `s` without leading and trailing whitespace.
pub fn trim_chars(s: &str) -> (r: Vec<char>)
    ensures r@ == trimmed(s@),
{
    let cs = chars_of(s);
    let n = cs.len();
    let mut i: usize = 0;
    assert(cs@.subrange(0, n as int) =~= cs@);
    while i < n && is_white_space(cs[i])
        invariant
            i <= n,
            n == cs.len(),
            trimmed_start(cs@) == trimmed_start(cs@.subrange(i as int, n as int)),
        decreases n - i,
    {
        assert(cs@.subrange(i as int, n as int).drop_first() =~= cs@.subrange(i as int + 1, n as int));
        i += 1;
    }
    assert(trimmed_start(cs@) == cs@.subrange(i as int, n as int));
    let ghost t = cs@.subrange(i as int, n as int);
    let mut j: usize = n;
    while j > i && is_white_space(cs[j - 1])
        invariant
            i <= j <= n,
            n == cs.len(),
            t == cs@.subrange(i as int, n as int),
            trimmed_end(t) == trimmed_end(cs@.subrange(i as int, j as int)),
        decreases j - i,
    {
        assert(cs@.subrange(i as int, j as int).drop_last() =~= cs@.subrange(i as int, j as int - 1));
        j -= 1;
    }
    assert(trimmed_end(t) == cs@.subrange(i as int, j as int));
    let mut out: Vec<char> = Vec::new();
    let mut k: usize = i;
    while k < j
        invariant
            i <= k <= j <= n,
            n == cs.len(),
            out@ == cs@.subrange(i as int, k as int),
        decreases j - k,
    {
        out.push(cs[k]);
        assert(cs@.subrange(i as int, k as int + 1) =~= cs@.subrange(i as int, k as int).push(cs@[k as int]));
        k += 1;
    }
    out
}

/// Calls `String::push`: the character is appended at the end.
#[verifier::external_body]
pub(crate) fn push_char(s: &mut String, c: char)
    ensures final(s)@ == old(s)@.push(c),
{
    s.push(c)
}

/// A string holding exactly the given characters.
pub fn string_from_chars(v: &Vec<char>) -> (s: String)
    ensures s@ == v@,
{
    let mut s = String::new();
    let mut i: usize = 0;
    while i < v.len()
        invariant
            i <= v.len(),
            s@ == v@.take(i as int),
        decreases v.len() - i,
    {
        push_char(&mut s, v[i]);
        assert(v@.take(i as int + 1) == v@.take(i as int).push(v@[i as int]));
        i += 1;
    }
    assert(v@.take(v.len() as int) == v@);
    s
}

/// Whether two string slices hold the same characters.
pub fn str_eq(a: &str, b: &str) -> (r: bool)
    ensures r == (a@ == b@),
{
    let x = chars_of(a);
    let y = chars_of(b);
    if x.len() != y.len() {
        return false;
    }
    let mut i: usize = 0;
    while i < x.len()
        invariant
            i <= x.len(),
            x.len() == y.len(),
            x@ == a@,
            y@ == b@,
            forall|k: int| 0 <= k < i ==> x@[k] == y@[k],
        decreases x.len() - i,
    {
        if x[i] != y[i] {
            assert(x@[i as int] != y@[i as int]);
            return false;
        }
        i += 1;
    }
    assert(x@ =~= y@);
    true
}

/// The characters an algorithm compares: the input itself, or its Unicode
/// lowercase form when the comparison is case-insensitive.
pub open spec fn normalized(input: Seq<char>, case_insensitive: bool) -> Seq<char> {
    if case_insensitive { unicode_lowercase(input) } else { input }
}

/// Splits the input into characters, lowercasing it first when
/// `case_insensitive` is set.
pub fn normalize_input(input: &str, case_insensitive: bool) -> (v: Vec<char>)
    ensures
        v@ == normalized(input@, case_insensitive),
        all_ascii(input@) && case_insensitive ==> v@ == input@.map_values(|c: char| ascii_lower(c)),
{
    if case_insensitive {
        let lowered = str_to_lowercase(input);
        chars_of(lowered.as_str())
    } else {
        chars_of(input)
    }
}

/// The alphabetic letters of `s`, upper-cased: what the phonetic codes are built from.
pub open spec fn upper_letters_spec(s: Seq<char>) -> Seq<char> {
    unicode_uppercase(s).filter(|c: char| unicode_alphabetic(c))
}

/// An ASCII letter, in either case.
pub open spec fn ascii_alpha(c: char) -> bool {
    ('a' <= c && c <= 'z') || ('A' <= c && c <= 'Z')
}

/// The letters of ASCII text, upper-cased.
pub open spec fn ascii_upper_letters(s: Seq<char>) -> Seq<char> {
    s.map_values(|c: char| ascii_upper(c)).filter(|c: char| ascii_alpha(c))
}

/// The alphabetic characters of the upper-cased input; on ASCII input, its
/// ASCII letters upper-cased.
pub fn upper_letters(s: &str) -> (cs: Vec<char>)
    ensures
        cs@ == upper_letters_spec(s@),
        all_ascii(s@) ==> cs@ == ascii_upper_letters(s@),
{
    let upper = str_to_uppercase(s);
    let all = chars_of(upper.as_str());
    let ghost pred = |c: char| unicode_alphabetic(c);
    let ghost apred = |c: char| ascii_alpha(c);
    let ghost ascii = all_ascii(s@);
    proof {
        if ascii {
            assert forall|i: int| 0 <= i < all@.len() implies (#[trigger] all@[i] as u32) < 128 by {
                assert(all@[i] == ascii_upper(s@[i]));
                assert((s@[i] as u32) < 128);
            }
        }
    }
    let mut cs: Vec<char> = Vec::new();
    let mut k: usize = 0;
    while k < all.len()
        invariant
            k <= all.len(),
            all@ == unicode_uppercase(s@),
            ascii == all_ascii(s@),
            ascii ==> all@ == s@.map_values(|c: char| ascii_upper(c)),
            ascii ==> forall|i: int| 0 <= i < all@.len() ==> (#[trigger] all@[i] as u32) < 128,
            pred == (|c: char| unicode_alphabetic(c)),
            apred == (|c: char| ascii_alpha(c)),
            cs@ == all@.take(k as int).filter(pred),
            ascii ==> cs@ == all@.take(k as int).filter(apred),
        decreases all.len() - k,
    {
        let c = all[k];
        proof {
            all@.take(k as int).lemma_filter_push(c, pred);
            all@.take(k as int).lemma_filter_push(c, apred);
            assert(all@.take(k as int + 1) =~= all@.take(k as int).push(c));
        }
        let keep = char_is_alphabetic(c);
        assert(pred(c) == keep);
        proof {
            if ascii {
                assert((all@[k as int] as u32) < 128);
                assert(apred(c) == keep);
            }
        }
        if keep {
            cs.push(c);
        }
        k += 1;
    }
    assert(all@.take(all.len() as int) =~= all@);
    cs
}

/// On ASCII text, upper-casing first or lower-casing first leaves the same
/// upper-cased letters, and dropping the non-letters changes nothing.
pub proof fn lemma_ascii_letters_ignore_case_and_others(s: Seq<char>)
    ensures
        ascii_upper_letters(s.map_values(|c: char| ascii_lower(c))) == ascii_upper_letters(s),
        ascii_upper_letters(s.filter(|c: char| ascii_alpha(c))) == ascii_upper_letters(s),
    decreases s.len(),
{
    let lower = |c: char| ascii_lower(c);
    let upper = |c: char| ascii_upper(c);
    let alpha = |c: char| ascii_alpha(c);
    if s.len() == 0 {
        assert(s.map_values(lower) =~= s);
        assert(s.filter(alpha) =~= s) by {
            broadcast use vstd::seq_lib::group_filter_ensures;
        }
    } else {
        let t = s.drop_last();
        let c = s.last();
        lemma_ascii_letters_ignore_case_and_others(t);
        assert(s =~= t.push(c));
        assert(s.map_values(lower) =~= t.map_values(lower).push(lower(c)));
        assert(s.map_values(upper) =~= t.map_values(upper).push(upper(c)));
        assert(s.map_values(lower).map_values(upper) =~= t.map_values(lower).map_values(upper).push(upper(lower(c))));
        t.map_values(upper).lemma_filter_push(upper(c), alpha);
        t.map_values(lower).map_values(upper).lemma_filter_push(upper(lower(c)), alpha);
        assert(upper(lower(c)) == upper(c));
        t.lemma_filter_push(c, alpha);
        if alpha(c) {
            assert(s.filter(alpha) =~= t.filter(alpha).push(c));
            assert(s.filter(alpha).map_values(upper) =~= t.filter(alpha).map_values(upper).push(upper(c)));
            t.filter(alpha).map_values(upper).lemma_filter_push(upper(c), alpha);
        } else {
            assert(s.filter(alpha) =~= t.filter(alpha));
        }
        assert(alpha(upper(c)) == alpha(c));
    }
}

} // verus!
