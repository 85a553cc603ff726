use pho::algorithms::lcsubstring::LCSubstring;
use pho::algorithms::lcsuf::LCSuf;
use pho::algorithms::metaphone::encode::metaphone;
use pho::algorithms::prefix::Prefix;
use pho::algorithms::ratio::Ratio;
use pho::algorithms::soundex::encode::soundex;

#[test]
fn prefix_counts_shared_leading_characters() {
    let r = Prefix::new(false).similarity("hello", "help");
    assert_eq!(r, Ratio { num: 3, den: 5 });
}

#[test]
fn lcsuf_counts_shared_trailing_characters() {
    let r = LCSuf::new(false).similarity("testing", "running");
    assert_eq!(r, Ratio { num: 3, den: 7 });
}

#[test]
fn lcsubstring_finds_inner_run() {
    let r = LCSubstring::new(false).similarity("abcdef", "zcdez");
    assert_eq!(r, Ratio { num: 3, den: 6 });
}

#[test]
fn metaphone_theta_and_silent_pairs() {
    assert_eq!(metaphone("Thompson"), "0MPSN");
    assert_eq!(metaphone("Knight"), "NT");
}

#[test]
fn soundex_classic_codes() {
    assert_eq!(soundex("Robert"), "R163");
    assert_eq!(soundex("Rupert"), "R163");
    assert_eq!(soundex("Pfister"), "P236");
    assert_eq!(soundex("Tymczak"), "T522");
    assert_eq!(soundex("Ashcraft"), "A261");
}

use pho::algorithms::metaphone::jaro::{jaro, JaroParts, JaroScore};
use pho::algorithms::metaphone::Metaphone;
use pho::algorithms::needleman_wunsch::DrugNameMatrix;
use pho::algorithms::ngram::{counted_ngrams, ngrams, padded_chars, unique_ngrams, count_shared_grams};
use pho::algorithms::soundex::{Soundex, SoundexMode};
use pho::algorithms::syllable::syllabify::{syllabify, syllable_bigrams};
use pho::algorithms::syllable::{Syllable, SyllableMetric};
use pho::algorithms::tfidf::CharTfIdf;
use pho::algorithms::levenshtein::normalized_chars;
use pho::error::Error;

fn chars(s: &str) -> Vec<char> {
    s.chars().collect()
}

#[test]
fn prefix_case_insensitive_lowercases_first() {
    let r = Prefix::new(true).similarity("HELLO", "help");
    assert_eq!(r, Ratio { num: 3, den: 5 });
    let r = Prefix::new(false).similarity("HELLO", "help");
    assert_eq!(r, Ratio { num: 0, den: 5 });
}

#[test]
fn prefix_is_symmetric_and_full_on_identical() {
    let p = Prefix::new(false);
    assert_eq!(p.similarity("cat", "category"), p.similarity("category", "cat"));
    let same = p.similarity("aspirin", "aspirin");
    assert_eq!(same.num, same.den);
}

#[test]
fn lcsuf_and_lcsubstring_full_on_identical() {
    let s = LCSuf::new(false).similarity("warfarin", "warfarin");
    assert_eq!(s.num, s.den);
    let t = LCSubstring::new(false).similarity("warfarin", "warfarin");
    assert_eq!(t.num, t.den);
    assert_eq!(
        LCSubstring::new(false).similarity("abcdef", "zcdez"),
        LCSubstring::new(false).similarity("zcdez", "abcdef")
    );
}

#[test]
fn jaro_counts_transpositions() {
    assert_eq!(
        jaro(&chars("MARTHA"), &chars("MARHTA")),
        JaroScore::Parts(JaroParts { matches: 6, half_transpositions: 1, len_a: 6, len_b: 6 })
    );
    assert_eq!(
        jaro(&chars("DWAYNE"), &chars("DUANE")),
        JaroScore::Parts(JaroParts { matches: 4, half_transpositions: 0, len_a: 6, len_b: 5 })
    );
    assert_eq!(jaro(&chars(""), &chars("")), JaroScore::Fixed(Ratio { num: 1, den: 1 }));
    assert_eq!(jaro(&chars("A"), &chars("")), JaroScore::Fixed(Ratio { num: 0, den: 1 }));
    assert_eq!(jaro(&chars("AB"), &chars("CD")), JaroScore::Fixed(Ratio { num: 0, den: 1 }));
}

#[test]
fn metaphone_similarity_of_same_sounding_names() {
    let m = Metaphone::new(false, 0);
    assert_eq!(
        m.similarity("Knight", "Night"),
        JaroScore::Parts(JaroParts { matches: 2, half_transpositions: 0, len_a: 2, len_b: 2 })
    );
    let truncated = Metaphone::new(false, 1);
    assert_eq!(
        truncated.similarity("Thompson", "Thomas"),
        JaroScore::Parts(JaroParts { matches: 1, half_transpositions: 0, len_a: 1, len_b: 1 })
    );
}

#[test]
fn metaphone_code_has_only_letters() {
    let code = metaphone("Schwarzenegger");
    assert!(!code.is_empty());
    assert!(code.chars().all(|c| c.is_ascii_uppercase() || c == '0'));
}

#[test]
fn soundex_modes() {
    let binary = Soundex::new(false, SoundexMode::Binary);
    assert_eq!(binary.similarity("Robert", "Rupert"), Ratio { num: 1, den: 1 });
    assert_eq!(binary.similarity("Robert", "Rubin"), Ratio { num: 0, den: 1 });
    let soft = Soundex::new(false, SoundexMode::Soft);
    assert_eq!(soft.similarity("Robert", "Rubin"), Ratio { num: 2, den: 4 });
    assert_eq!(soft.similarity("Robert", "Robert"), Ratio { num: 4, den: 4 });
    assert_eq!(soft.similarity("", "Robert"), Ratio { num: 0, den: 1 });
}

#[test]
fn syllabify_uses_maximal_onset() {
    assert_eq!(syllabify("metoprolol"), vec!["me", "to", "pro", "lol"]);
    assert_eq!(syllabify("Aspirin"), vec!["a", "spi", "rin"]);
    assert_eq!(syllabify("rhythm"), vec!["rhythm"]);
    assert_eq!(syllabify("psst"), vec!["psst"]);
    assert!(syllabify("").is_empty());
}

#[test]
fn syllabify_covers_the_word() {
    let word = "hydrochlorothiazide";
    assert_eq!(syllabify(word).concat(), word);
}

#[test]
fn syllable_bigrams_pair_neighbours() {
    assert_eq!(
        syllable_bigrams("metoprolol"),
        vec![
            ("me".to_string(), "to".to_string()),
            ("to".to_string(), "pro".to_string()),
            ("pro".to_string(), "lol".to_string()),
        ]
    );
}

#[test]
fn syllable_similarity_metrics() {
    let dice = Syllable::new(false, SyllableMetric::Dice);
    let same = dice.similarity("metoprolol", "metoprolol");
    assert_eq!(same.num, same.den);
    assert_eq!(dice.similarity("a", "a"), Ratio { num: 1, den: 1 });
    assert_eq!(dice.similarity("a", "b"), Ratio { num: 0, den: 1 });
    let overlap = Syllable::new(false, SyllableMetric::Overlap);
    let r = overlap.similarity("metoprolol", "metopro");
    assert_eq!(r, Ratio { num: 2, den: 2 });
    let jaccard = Syllable::new(false, SyllableMetric::Jaccard);
    assert_eq!(jaccard.similarity("metoprolol", "metopro"), Ratio { num: 2, den: 3 });
    assert_eq!(dice.similarity("metoprolol", "metopro"), Ratio { num: 4, den: 5 });
}

#[test]
fn ngram_windows_and_padding() {
    let padded = padded_chars(&chars("ab"), 1, 2);
    assert_eq!(padded, chars(" ab  "));
    assert_eq!(ngrams(&chars("abc"), 2), vec![chars("ab"), chars("bc")]);
    assert!(ngrams(&chars("abc"), 4).is_empty());
    assert!(ngrams(&chars("abc"), 0).is_empty());
    let unique = unique_ngrams(&chars("aaaa"), 2);
    assert_eq!(unique, vec![chars("aa")]);
    let counted = counted_ngrams(&chars("abab"), 2);
    assert_eq!(counted.len(), 2);
    assert!(counted.contains(&(chars("ab"), 2)));
    assert!(counted.contains(&(chars("ba"), 1)));
    let xs = unique_ngrams(&chars("abcd"), 2);
    let ys = unique_ngrams(&chars("bcde"), 2);
    assert_eq!(count_shared_grams(&xs, &ys), 2);
}

#[test]
fn tfidf_rejects_zero_gram_size() {
    assert_eq!(CharTfIdf::try_new(0, false, true).unwrap_err(), Error::InvalidNGramSize(0));
    let t = CharTfIdf::try_new(2, true, true).unwrap();
    assert_eq!(t.n, 2);
    let counts = t.counts("ABab");
    assert!(counts.contains(&(chars("ab"), 2)));
    assert!(counts.contains(&(chars("ba"), 1)));
}

#[test]
fn levenshtein_consonants_only_strips_vowels() {
    assert_eq!(normalized_chars("Colour", true, true), chars("clr"));
    assert_eq!(normalized_chars("Colour", false, true), chars("Clr"));
    assert_eq!(normalized_chars("Colour", false, false), chars("Colour"));
    assert_eq!(normalized_chars("Yay", false, true), chars("Yy"));
}

#[test]
fn drug_name_matrix_scores() {
    let m = DrugNameMatrix::new();
    assert_eq!(m.score('a', 'A'), 2);
    assert_eq!(m.score('b', 'p'), 1);
    assert_eq!(m.score('p', 'B'), 1);
    assert_eq!(m.score('b', 'x'), -1);
    assert_eq!(m.score('1', '1'), 2);
    assert_eq!(m.self_score(&chars("abc")), 6);
}

#[test]
fn jaro_and_metaphone_full_on_identical() {
    assert_eq!(
        jaro(&chars("AABA"), &chars("AABA")),
        JaroScore::Parts(JaroParts { matches: 4, half_transpositions: 0, len_a: 4, len_b: 4 })
    );
    let m = Metaphone::new(true, 3);
    assert_eq!(
        m.similarity("Schwarzenegger", "Schwarzenegger"),
        JaroScore::Parts(JaroParts { matches: 3, half_transpositions: 0, len_a: 3, len_b: 3 })
    );
    assert_eq!(m.similarity("", ""), JaroScore::Fixed(Ratio { num: 1, den: 1 }));
}

#[test]
fn encoders_uppercase_and_keep_letters_only() {
    assert_eq!(soundex("robert"), "R163");
    assert_eq!(soundex("Rob-3ert"), "R163");
    assert_eq!(soundex("42"), "");
    assert_eq!(metaphone("knight"), "NT");
}

#[test]
fn scores_ignore_input_order() {
    let suf = LCSuf::new(true);
    assert_eq!(suf.similarity("Atenolol", "propranolol"), suf.similarity("propranolol", "Atenolol"));
    assert_eq!(suf.similarity("atenolol", "propranolol"), Ratio { num: 5, den: 11 });
    let soft = Soundex::new(true, SoundexMode::Soft);
    assert_eq!(soft.similarity("Tymczak", "Ashcraft"), soft.similarity("Ashcraft", "Tymczak"));
    let syl = Syllable::new(false, SyllableMetric::Jaccard);
    assert_eq!(syl.similarity("metoprolol", "metopro"), syl.similarity("metopro", "metoprolol"));
}

#[test]
fn soundex_codes_have_four_characters() {
    assert_eq!(soundex("Émile"), "É540");
    assert_eq!(soundex("Lee"), "L000");
    assert_eq!(soundex("Émile").chars().count(), 4);
}

#[test]
fn metaphone_ignores_non_letters_and_stays_short() {
    assert_eq!(metaphone("Kn-i ght!"), metaphone("Knight"));
    assert_eq!(metaphone("x"), "KS");
    assert!(metaphone("Xerxes").chars().count() <= 2 * 6);
    assert_eq!(metaphone("12"), "");
}

#[test]
fn one_syllable_per_vowel_run() {
    assert_eq!(syllabify("aeiou").len(), 1);
    assert_eq!(syllabify("banana").len(), 3);
    assert_eq!(syllabify("strengths"), vec!["strengths"]);
}

#[test]
fn metaphone_sc_before_front_vowel_is_one_s() {
    assert_eq!(metaphone("Science"), "SNS");
    assert_eq!(metaphone("scythe"), "S0");
    assert_eq!(metaphone("Scott"), "SKT");
    assert_eq!(metaphone("fascia"), "FSX");
}

#[test]
fn ascii_case_does_not_change_codes() {
    assert_eq!(metaphone("thompson"), metaphone("THOMPSON"));
    assert_eq!(soundex("ash-CRAFT"), soundex("Ashcraft"));
}
