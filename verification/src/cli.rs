//! The decisions behind the command-line tool: which group a configured
//! algorithm belongs to, how separated edit-operation counts become
//! columns, and how the delimiter option is read.
use vstd::prelude::*;

use crate::error::Error;
use crate::text::{ascii_lower, chars_of, str_eq, string_from_chars, to_ascii_lowercase, trim_chars, trimmed};
use vstd::string::{StringExecFns, StringSliceAdditionalSpecFns};

verus! {

/// Which of the three command-line algorithm groups a config belongs to.
///
/// `PhonNipa` and `Orth` both take plain spelling, but only `PhonNipa`
/// algorithms are designed to model pronunciation.
#[derive(Debug, Clone, Copy, PartialEq, Eq)]
pub enum Group {
    /// Plain orthographic / string-similarity algorithms.
    Orth,
    /// Phonetic algorithms designed to run on plain spelling rather than IPA.
    PhonNipa,
    /// Phonetic algorithms that require IPA transcriptions.
    PhonYipa,
}

/// The group of an `algorithm` key.
pub open spec fn group_of(kind: Seq<char>) -> Group {
    if kind == "aline"@ {
        Group::PhonYipa
    } else if kind == "bisim"@ || kind == "double_metaphone"@ || kind == "doublemetaphone"@
        || kind == "editex"@ || kind == "metaphone"@ || kind == "needleman_wunsch"@
        || kind == "needlemanwunsch"@ || kind == "soundex"@ || kind == "syllable"@ {
        Group::PhonNipa
    } else {
        Group::Orth
    }
}

impl Group {
    /// The group of the algorithm named by a config's `algorithm` key.
    pub fn of(kind: &str) -> (r: Group)
        ensures r == group_of(kind@),
    {
        if str_eq(kind, "aline") {
            Group::PhonYipa
        } else if str_eq(kind, "bisim") || str_eq(kind, "double_metaphone") || str_eq(kind, "doublemetaphone")
            || str_eq(kind, "editex") || str_eq(kind, "metaphone") || str_eq(kind, "needleman_wunsch")
            || str_eq(kind, "needlemanwunsch") || str_eq(kind, "soundex") || str_eq(kind, "syllable") {
            Group::PhonNipa
        } else {
            Group::Orth
        }
    }
}

/// Which operation tally an edit-operation column reports.
///
/// Insertions and deletions are directional: whichever input a row puts
/// first decides which count is which. `Indels` (their sum) and `IndelDiff`
/// (their absolute difference) carry the same information without that
/// arbitrary sign. Substitutions are symmetric and need no such transform.
#[derive(Debug, Clone, Copy, PartialEq, Eq)]
pub enum EditOperation {
    Substitutions,
    Indels,
    IndelDiff,
}

/// The value an edit-operation column reports for the tallies
/// `(substitutions, insertions, deletions)`.
pub open spec fn selected(op: EditOperation, counts: (u32, u32, u32)) -> int {
    let (substitutions, insertions, deletions) = counts;
    match op {
        EditOperation::Substitutions => substitutions as int,
        EditOperation::Indels => insertions + deletions,
        EditOperation::IndelDiff => if insertions >= deletions { insertions - deletions } else { deletions - insertions },
    }
}

impl EditOperation {
    /// All three columns, in output order.
    pub fn all() -> (r: [EditOperation; 3])
        ensures r@ == seq![EditOperation::Substitutions, EditOperation::Indels, EditOperation::IndelDiff],
    {
        let r = [EditOperation::Substitutions, EditOperation::Indels, EditOperation::IndelDiff];
        assert(r@ =~= seq![EditOperation::Substitutions, EditOperation::Indels, EditOperation::IndelDiff]);
        r
    }

    /// The column-name suffix of the operation.
    pub fn suffix(self) -> (r: &'static str)
        ensures
            r@ == match self {
                EditOperation::Substitutions => "substitutions"@,
                EditOperation::Indels => "indels"@,
                EditOperation::IndelDiff => "indel_diff"@,
            },
    {
        match self {
            Self::Substitutions => "substitutions",
            Self::Indels => "indels",
            Self::IndelDiff => "indel_diff",
        }
    }

    /// The value of this column for the tallies `(substitutions, insertions, deletions)`.
    pub fn select(self, counts: (u32, u32, u32)) -> (r: u64)
        ensures r == selected(self, counts),
    {
        let (substitutions, insertions, deletions) = counts;
        match self {
            Self::Substitutions => substitutions as u64,
            Self::Indels => insertions as u64 + deletions as u64,
            Self::IndelDiff => {
                if insertions >= deletions {
                    (insertions - deletions) as u64
                } else {
                    (deletions - insertions) as u64
                }
            },
        }
    }

    /// The name of the column for a config named `column_name`:
    /// `{column_name}_{suffix}`.
    pub fn column_name(self, column_name: &str) -> (r: String)
        ensures r@ == column_name@ + "_"@ + self.suffix_spec(),
    {
        let mut name = column_name.to_owned();
        name.append("_");
        name.append(self.suffix());
        name
    }

    pub open spec fn suffix_spec(self) -> Seq<char> {
        match self {
            EditOperation::Substitutions => "substitutions"@,
            EditOperation::Indels => "indels"@,
            EditOperation::IndelDiff => "indel_diff"@,
        }
    }
}

/// The indel columns do not depend on which input came first: swapping
/// insertions and deletions leaves them unchanged.
pub proof fn law_indel_columns_order_invariant(substitutions: u32, insertions: u32, deletions: u32)
    ensures
        selected(EditOperation::Indels, (substitutions, insertions, deletions))
            == selected(EditOperation::Indels, (substitutions, deletions, insertions)),
        selected(EditOperation::IndelDiff, (substitutions, insertions, deletions))
            == selected(EditOperation::IndelDiff, (substitutions, deletions, insertions)),
{
}

/// The algorithms a config file can ask for by its `algorithm` key.
#[derive(Debug, Clone, Copy, PartialEq, Eq, Structural)]
pub enum AlgorithmKind {
    Aline,
    BiSim,
    DoubleMetaphone,
    Editex,
    JaroWinkler,
    Keyboard,
    Lcs,
    LCSubstring,
    LCSuf,
    Levenshtein,
    Metaphone,
    NeedlemanWunsch,
    NGram,
    Prefix,
    SmithWaterman,
    Soundex,
    Syllable,
    CharTfIdf,
    VisualWeighted,
}

/// The algorithm a normalized `algorithm` key names, aliases included.
pub open spec fn kind_of_key(k: Seq<char>) -> Option<AlgorithmKind> {
    if k == "aline"@ { Some(AlgorithmKind::Aline) }
    else if k == "bisim"@ { Some(AlgorithmKind::BiSim) }
    else if k == "double_metaphone"@ || k == "doublemetaphone"@ { Some(AlgorithmKind::DoubleMetaphone) }
    else if k == "editex"@ { Some(AlgorithmKind::Editex) }
    else if k == "jaro_winkler"@ || k == "jarowinkler"@ { Some(AlgorithmKind::JaroWinkler) }
    else if k == "keyboard"@ { Some(AlgorithmKind::Keyboard) }
    else if k == "lcs"@ { Some(AlgorithmKind::Lcs) }
    else if k == "lcsubstring"@ { Some(AlgorithmKind::LCSubstring) }
    else if k == "lcsuf"@ { Some(AlgorithmKind::LCSuf) }
    else if k == "levenshtein"@ { Some(AlgorithmKind::Levenshtein) }
    else if k == "metaphone"@ { Some(AlgorithmKind::Metaphone) }
    else if k == "needleman_wunsch"@ || k == "needlemanwunsch"@ { Some(AlgorithmKind::NeedlemanWunsch) }
    else if k == "ngram"@ { Some(AlgorithmKind::NGram) }
    else if k == "prefix"@ { Some(AlgorithmKind::Prefix) }
    else if k == "smith_waterman"@ || k == "smithwaterman"@ { Some(AlgorithmKind::SmithWaterman) }
    else if k == "soundex"@ { Some(AlgorithmKind::Soundex) }
    else if k == "syllable"@ { Some(AlgorithmKind::Syllable) }
    else if k == "tfidf"@ || k == "chartfidf"@ { Some(AlgorithmKind::CharTfIdf) }
    else if k == "visual_weighted"@ || k == "visualweighted"@ { Some(AlgorithmKind::VisualWeighted) }
    else { None }
}

/// A raw `algorithm` value as the tool reads it: trimmed, then in ASCII
/// lowercase.
pub open spec fn normalized_key(raw: Seq<char>) -> Seq<char> {
    trimmed(raw).map_values(|c: char| ascii_lower(c))
}

impl AlgorithmKind {
    /// The algorithm named by a normalized `algorithm` key.
    pub fn from_key(kind: &str) -> (r: Option<AlgorithmKind>)
        ensures r == kind_of_key(kind@),
    {
        if str_eq(kind, "aline") { Some(AlgorithmKind::Aline) }
        else if str_eq(kind, "bisim") { Some(AlgorithmKind::BiSim) }
        else if str_eq(kind, "double_metaphone") || str_eq(kind, "doublemetaphone") { Some(AlgorithmKind::DoubleMetaphone) }
        else if str_eq(kind, "editex") { Some(AlgorithmKind::Editex) }
        else if str_eq(kind, "jaro_winkler") || str_eq(kind, "jarowinkler") { Some(AlgorithmKind::JaroWinkler) }
        else if str_eq(kind, "keyboard") { Some(AlgorithmKind::Keyboard) }
        else if str_eq(kind, "lcs") { Some(AlgorithmKind::Lcs) }
        else if str_eq(kind, "lcsubstring") { Some(AlgorithmKind::LCSubstring) }
        else if str_eq(kind, "lcsuf") { Some(AlgorithmKind::LCSuf) }
        else if str_eq(kind, "levenshtein") { Some(AlgorithmKind::Levenshtein) }
        else if str_eq(kind, "metaphone") { Some(AlgorithmKind::Metaphone) }
        else if str_eq(kind, "needleman_wunsch") || str_eq(kind, "needlemanwunsch") { Some(AlgorithmKind::NeedlemanWunsch) }
        else if str_eq(kind, "ngram") { Some(AlgorithmKind::NGram) }
        else if str_eq(kind, "prefix") { Some(AlgorithmKind::Prefix) }
        else if str_eq(kind, "smith_waterman") || str_eq(kind, "smithwaterman") { Some(AlgorithmKind::SmithWaterman) }
        else if str_eq(kind, "soundex") { Some(AlgorithmKind::Soundex) }
        else if str_eq(kind, "syllable") { Some(AlgorithmKind::Syllable) }
        else if str_eq(kind, "tfidf") || str_eq(kind, "chartfidf") { Some(AlgorithmKind::CharTfIdf) }
        else if str_eq(kind, "visual_weighted") || str_eq(kind, "visualweighted") { Some(AlgorithmKind::VisualWeighted) }
        else { None }
    }
}

/// Normalizes a raw `algorithm` value: trims it and lowercases its ASCII
/// letters.
pub fn normalize_key(raw: &str) -> (r: String)
    ensures r@ == normalized_key(raw@),
{
    let t = trim_chars(raw);
    let mut out: Vec<char> = Vec::new();
    let mut i: usize = 0;
    while i < t.len()
        invariant
            i <= t.len(),
            out@ == t@.take(i as int).map_values(|c: char| ascii_lower(c)),
        decreases t.len() - i,
    {
        let c = to_ascii_lowercase(t[i]);
        out.push(c);
        assert(t@.take(i as int + 1).map_values(|c: char| ascii_lower(c))
            =~= t@.take(i as int).map_values(|c: char| ascii_lower(c)).push(ascii_lower(t@[i as int])));
        i += 1;
    }
    assert(t@.take(t.len() as int) =~= t@);
    string_from_chars(&out)
}

/// Resolves the raw `algorithm` value of the config read from `label`: the
/// normalized key and the algorithm it names, or `UnknownAlgorithm` with
/// the normalized key and the label when it names none.
pub fn resolve_algorithm(label: &str, raw: &str) -> (r: Result<(String, AlgorithmKind), Error>)
    ensures
        r is Ok <==> kind_of_key(normalized_key(raw@)) is Some,
        r matches Ok((k, a)) ==> k@ == normalized_key(raw@) && kind_of_key(k@) == Some(a),
        r matches Err(e) ==> e matches Error::UnknownAlgorithm { algorithm, file }
            && algorithm@ == normalized_key(raw@) && file@ == label@,
{
    let key = normalize_key(raw);
    match AlgorithmKind::from_key(key.as_str()) {
        Some(kind) => Ok((key, kind)),
        None => Err(Error::UnknownAlgorithm { algorithm: key, file: label.to_owned() }),
    }
}

/// What `toml::from_str` makes of a config document, read as a table: each
/// top-level key in the table's order, with its value where that value is a
/// TOML string; or the parse error's message.
pub uninterp spec fn toml_top_level(content: Seq<char>) -> Result<Seq<(Seq<char>, Option<Seq<char>>)>, Seq<char>>;

/// Calls `toml::from_str` to parse a config document into a `toml::Table`,
/// and lists its top-level entries, each key with its value when that value
/// is a string. The contract claims only that the result is the named parse
/// of the document; the TOML grammar is left unsaid.
#[verifier::external_body]
fn toml_entries(content: &str) -> (r: Result<Vec<(String, Option<String>)>, String>)
    ensures
        match toml_top_level(content@) {
            Ok(es) => r matches Ok(v) && v.deep_view() == es,
            Err(m) => r matches Err(e) && e@ == m,
        },
{
    match toml::from_str::<toml::Table>(content) {
        Ok(table) => Ok(table.iter().map(|(k, v)| (k.clone(), v.as_str().map(|s| s.to_owned()))).collect()),
        Err(e) => Err(e.to_string()),
    }
}

/// The value of the first entry from `i` on whose key is `algorithm`:
/// `Some(Some(raw))` for a string value, `Some(None)` for any other value.
pub open spec fn algorithm_entry(es: Seq<(Seq<char>, Option<Seq<char>>)>, i: int) -> Option<Option<Seq<char>>>
    decreases es.len() - i,
{
    if i < 0 || i >= es.len() {
        None
    } else if es[i].0 == "algorithm"@ {
        Some(es[i].1)
    } else {
        algorithm_entry(es, i + 1)
    }
}

/// The algorithm asked for by the top-level entries of a config from
/// `label`: the string value of its `algorithm` key, resolved as
/// `resolve_algorithm` does; `MissingAlgorithmKey` when there is no such key
/// or its value is not a string.
pub fn algorithm_from_entries(label: &str, entries: &Vec<(String, Option<String>)>) -> (r: Result<(String, AlgorithmKind), Error>)
    ensures
        match algorithm_entry(entries.deep_view(), 0) {
            Some(Some(raw)) => {
                &&& (r is Ok <==> kind_of_key(normalized_key(raw)) is Some)
                &&& (r matches Ok((k, a)) ==> k@ == normalized_key(raw) && kind_of_key(k@) == Some(a))
                &&& (r matches Err(e) ==> e matches Error::UnknownAlgorithm { algorithm, file }
                    && algorithm@ == normalized_key(raw) && file@ == label@)
            },
            _ => r matches Err(Error::MissingAlgorithmKey { file }) && file@ == label@,
        },
{
    let ghost es = entries.deep_view();
    let mut i: usize = 0;
    while i < entries.len()
        invariant
            i <= entries.len(),
            es == entries.deep_view(),
            algorithm_entry(es, 0) == algorithm_entry(es, i as int),
        decreases entries.len() - i,
    {
        if str_eq(entries[i].0.as_str(), "algorithm") {
            assert(es[i as int].0 == entries@[i as int].0@);
            match &entries[i].1 {
                Some(raw) => {
                    assert(es[i as int].1 == Some(raw@));
                    return resolve_algorithm(label, raw.as_str());
                },
                None => {
                    assert(es[i as int].1 is None);
                    return Err(Error::MissingAlgorithmKey { file: label.to_owned() });
                },
            }
        }
        assert(es[i as int].0 != "algorithm"@);
        i += 1;
    }
    Err(Error::MissingAlgorithmKey { file: label.to_owned() })
}

/// Reads which algorithm the config document `content`, from `label`, asks
/// for: a document that does not parse is refused with the parse message;
/// otherwise the answer is `algorithm_from_entries` on its top-level entries.
pub fn config_algorithm(label: &str, content: &str) -> (r: Result<(String, AlgorithmKind), Error>)
    ensures
        match toml_top_level(content@) {
            Err(m) => r matches Err(Error::ConfigParse { file, message }) && file@ == label@ && message@ == m,
            Ok(es) => match algorithm_entry(es, 0) {
                Some(Some(raw)) => {
                    &&& (r is Ok <==> kind_of_key(normalized_key(raw)) is Some)
                    &&& (r matches Ok((k, a)) ==> k@ == normalized_key(raw) && kind_of_key(k@) == Some(a))
                    &&& (r matches Err(e) ==> e matches Error::UnknownAlgorithm { algorithm, file }
                        && algorithm@ == normalized_key(raw) && file@ == label@)
                },
                _ => r matches Err(Error::MissingAlgorithmKey { file }) && file@ == label@,
            },
        },
{
    match toml_entries(content) {
        Ok(entries) => algorithm_from_entries(label, &entries),
        Err(message) => Err(Error::ConfigParse { file: label.to_owned(), message }),
    }
}

/// Character order on names: lexicographic by code point, a prefix first
/// (the byte order of their UTF-8 encodings).
pub open spec fn chars_le(a: Seq<char>, b: Seq<char>) -> bool
    decreases a.len(),
{
    if a.len() == 0 {
        true
    } else if b.len() == 0 {
        false
    } else if a[0] != b[0] {
        a[0] < b[0]
    } else {
        chars_le(a.drop_first(), b.drop_first())
    }
}

proof fn lemma_chars_le_total(a: Seq<char>, b: Seq<char>)
    ensures chars_le(a, b) || chars_le(b, a),
    decreases a.len(),
{
    if a.len() > 0 && b.len() > 0 && a[0] == b[0] {
        lemma_chars_le_total(a.drop_first(), b.drop_first());
    }
}

proof fn lemma_chars_le_reflexive(a: Seq<char>)
    ensures chars_le(a, a),
    decreases a.len(),
{
    if a.len() > 0 {
        lemma_chars_le_reflexive(a.drop_first());
    }
}

proof fn lemma_chars_le_antisymmetric(a: Seq<char>, b: Seq<char>)
    requires chars_le(a, b), chars_le(b, a),
    ensures a == b,
    decreases a.len(),
{
    if a.len() == 0 {
        assert(b.len() == 0);
        assert(a =~= b);
    } else {
        assert(b.len() > 0);
        assert(a[0] == b[0]);
        lemma_chars_le_antisymmetric(a.drop_first(), b.drop_first());
        assert(a =~= seq![a[0]] + a.drop_first());
        assert(b =~= seq![b[0]] + b.drop_first());
    }
}

proof fn lemma_chars_le_transitive(a: Seq<char>, b: Seq<char>, c: Seq<char>)
    requires chars_le(a, b), chars_le(b, c),
    ensures chars_le(a, c),
    decreases a.len(),
{
    if a.len() > 0 && b.len() > 0 && c.len() > 0 && a[0] == b[0] && b[0] == c[0] {
        lemma_chars_le_transitive(a.drop_first(), b.drop_first(), c.drop_first());
    }
}

/// Whether `a` comes no later than `b` in character order.
pub fn name_le(a: &str, b: &str) -> (r: bool)
    ensures r == chars_le(a@, b@),
{
    let x = chars_of(a);
    let y = chars_of(b);
    let mut k: usize = 0;
    assert(x@.skip(0) =~= x@);
    assert(y@.skip(0) =~= y@);
    while k < x.len() && k < y.len() && x[k] == y[k]
        invariant
            k <= x.len(),
            k <= y.len(),
            x@ == a@,
            y@ == b@,
            chars_le(a@, b@) == chars_le(x@.skip(k as int), y@.skip(k as int)),
        decreases x.len() - k,
    {
        assert(x@.skip(k as int).drop_first() =~= x@.skip(k as int + 1));
        assert(y@.skip(k as int).drop_first() =~= y@.skip(k as int + 1));
        k += 1;
    }
    if k == x.len() {
        true
    } else if k == y.len() {
        false
    } else {
        assert(x@.skip(k as int)[0] == x@[k as int]);
        assert(y@.skip(k as int)[0] == y@[k as int]);
        x[k] < y[k]
    }
}

/// Whether row `i` is reported before row `j`: by name, then by position.
pub open spec fn reported_before(names: Seq<Seq<char>>, i: int, j: int) -> bool {
    if names[i] == names[j] { i < j } else { chars_le(names[i], names[j]) }
}

/// The order in which results are reported: every position once, sorted by
/// name, equal names in input order.
pub fn report_order(names: &Vec<String>) -> (r: Vec<usize>)
    ensures
        r@.len() == names.len(),
        r@.no_duplicates(),
        forall|k: int| 0 <= k < r@.len() ==> #[trigger] r@[k] < names.len(),
        forall|a: int, b: int| 0 <= a < b < r@.len()
            ==> reported_before(names.deep_view(), #[trigger] r@[a] as int, #[trigger] r@[b] as int),
{
    let ghost nv = names.deep_view();
    let mut out: Vec<usize> = Vec::new();
    let mut i: usize = 0;
    while i < names.len()
        invariant
            i <= names.len(),
            nv == names.deep_view(),
            out@.len() == i,
            out@.no_duplicates(),
            forall|k: int| 0 <= k < out@.len() ==> #[trigger] out@[k] < i,
            forall|a: int, b: int| 0 <= a < b < out@.len()
                ==> reported_before(nv, #[trigger] out@[a] as int, #[trigger] out@[b] as int),
        decreases names.len() - i,
    {
        let mut p: usize = 0;
        while p < out.len() && name_le(names[out[p]].as_str(), names[i].as_str())
            invariant
                p <= out@.len(),
                i < names.len(),
                nv == names.deep_view(),
                forall|k: int| 0 <= k < out@.len() ==> #[trigger] out@[k] < i,
                forall|q: int| 0 <= q < p ==> chars_le(nv[#[trigger] out@[q] as int], nv[i as int]),
            decreases out@.len() - p,
        {
            p += 1;
        }
        let ghost old_out = out@;
        proof {
            if p < old_out.len() {
                assert(!chars_le(nv[old_out[p as int] as int], nv[i as int]));
                lemma_chars_le_total(nv[old_out[p as int] as int], nv[i as int]);
            }
        }
        out.insert(p, i);
        proof {
            assert(out@ == old_out.insert(p as int, i));
            assert forall|a: int, b: int| 0 <= a < b < out@.len()
                implies reported_before(nv, #[trigger] out@[a] as int, #[trigger] out@[b] as int) by {
                let (x, y) = (out@[a] as int, out@[b] as int);
                if a < p && b < p {
                    assert(x == old_out[a] && y == old_out[b]);
                } else if a < p && b == p {
                    assert(x == old_out[a]);
                    assert(chars_le(nv[x], nv[i as int]));
                } else if a < p {
                    assert(x == old_out[a] && y == old_out[b - 1]);
                } else if a == p {
                    let q = b - 1;
                    assert(y == old_out[q]);
                    let np = nv[old_out[p as int] as int];
                    if q > p {
                        assert(reported_before(nv, old_out[p as int] as int, old_out[q] as int));
                        if np != nv[y] {
                            assert(chars_le(np, nv[y]));
                        }
                    }
                    lemma_chars_le_reflexive(np);
                    assert(chars_le(np, nv[y]));
                    assert(chars_le(nv[i as int], np));
                    lemma_chars_le_transitive(nv[i as int], np, nv[y]);
                    if nv[i as int] == nv[y] {
                        assert(chars_le(np, nv[i as int]));
                    }
                } else {
                    assert(x == old_out[a - 1] && y == old_out[b - 1]);
                }
            }
            assert forall|p1: int, q1: int| 0 <= p1 < out@.len() && 0 <= q1 < out@.len() && p1 != q1
                implies out@[p1] != out@[q1] by {
                if p1 < q1 {
                    assert(reported_before(nv, out@[p1] as int, out@[q1] as int));
                } else {
                    assert(reported_before(nv, out@[q1] as int, out@[p1] as int));
                }
            }
        }
        i += 1;
    }
    out
}

/// The length of a name in bytes, as UTF-8 (what `str::len` reports).
pub open spec fn byte_len(s: Seq<char>) -> usize {
    vstd::utf8::encode_utf8(s).len() as usize
}

/// The widest name, in bytes: the column the report aligns its colons at.
pub fn widest_name(names: &Vec<String>) -> (r: usize)
    ensures
        forall|k: int| 0 <= k < names.len() ==> byte_len(#[trigger] names@[k]@) <= r,
        names.len() == 0 ==> r == 0,
        names.len() > 0 ==> exists|k: int| 0 <= k < names.len() && byte_len(#[trigger] names@[k]@) == r,
{
    let mut w: usize = 0;
    let mut k: usize = 0;
    while k < names.len()
        invariant
            k <= names.len(),
            forall|q: int| 0 <= q < k ==> byte_len(#[trigger] names@[q]@) <= w,
            k == 0 ==> w == 0,
            k > 0 ==> exists|q: int| 0 <= q < k && byte_len(#[trigger] names@[q]@) == w,
        decreases names.len() - k,
    {
        let name: &str = names[k].as_str();
        let len = name.len();
        assert(name@ == names@[k as int]@);
        assert(len == byte_len(names@[k as int]@));
        if len > w || k == 0 {
            w = len;
        }
        k += 1;
    }
    w
}

/// Reads the delimiter option: it must be exactly one byte.
pub fn parse_delimiter(delimiter: &str) -> (r: Result<u8, Error>)
    ensures
        r is Ok <==> delimiter.spec_bytes().len() == 1,
        r matches Ok(b) ==> b == delimiter.spec_bytes()[0],
        r matches Err(e) ==> e matches Error::InvalidDatasetShape(m) && m@ == "delimiter must be a single byte"@,
{
    let bytes = delimiter.as_bytes();
    if bytes.len() != 1 {
        return Err(Error::InvalidDatasetShape("delimiter must be a single byte".to_owned()));
    }
    Ok(bytes[0])
}

} // verus!
