# pho

Phonetic and orthographic similarity algorithms for string pairs (drug
names in particular), with the logic verified by Verus.

- `src/` is the verified library: the encoders (Soundex, Metaphone,
  syllabification, IPA tokenizing), the exact similarity scores (prefix,
  suffix, substring, syllable bigrams, Soundex, Metaphone/Jaro), the
  n-gram and term-count extraction, the word-level and Filipino indicator
  features, score-matrix shape checks, the train/test split, ensemble
  weight rules and the decisions of the `phoc` tool. Scores that are
  quotients of counts are returned as exact fractions.
- `tests/` exercises the library on concrete inputs.
- `app/` is the `phoc` command-line tool around the library: file and CSV
  I/O, config loading, the `f32` scoring layer and the algorithms whose
  costs or weights are floating-point numbers (Levenshtein with weighted
  costs, Needleman-Wunsch, Smith-Waterman, n-gram metrics, TF weighting,
  weighted ensembles), and Arrow/Parquet export.
