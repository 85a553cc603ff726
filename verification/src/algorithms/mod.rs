//! The similarity algorithms.
//!
//! Each algorithm turns a pair of strings into an exact score: a ratio of
//! counts, a Jaro count record, or the counts a float formula is built from.
pub mod bigram_set;
pub mod lcsubstring;
pub mod lcsuf;
pub mod levenshtein;
pub mod metaphone;
pub mod needleman_wunsch;
pub mod ngram;
pub mod ph_aline;
pub mod prefix;
pub mod ratio;
pub mod runs;
pub mod soundex;
pub mod syllable;
pub mod tfidf;
pub mod validation;
