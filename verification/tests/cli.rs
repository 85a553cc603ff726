use pho::cli::{normalize_key, parse_delimiter, resolve_algorithm, AlgorithmKind, EditOperation, Group};
use pho::config::toml_file_name;
use pho::ensemble::{EnsembleConfig, WeightProblem, WeightSummary};
use pho::error::Error;
use pho::ipa::mapper::str_to_ipa;
use pho::ipa::symbols::IPA;
use pho::text::{normalize_input, trim_chars};

#[test]
fn groups_of_algorithm_keys() {
    assert_eq!(Group::of("aline"), Group::PhonYipa);
    assert_eq!(Group::of("soundex"), Group::PhonNipa);
    assert_eq!(Group::of("doublemetaphone"), Group::PhonNipa);
    assert_eq!(Group::of("levenshtein"), Group::Orth);
    assert_eq!(Group::of("anything"), Group::Orth);
}

#[test]
fn delimiter_must_be_one_byte() {
    assert_eq!(parse_delimiter(",").unwrap(), b',');
    assert_eq!(parse_delimiter("\t").unwrap(), b'\t');
    let expected = Error::InvalidDatasetShape("delimiter must be a single byte".to_string());
    assert_eq!(parse_delimiter(";;").unwrap_err(), expected);
    assert_eq!(parse_delimiter("é").unwrap_err(), expected);
    assert_eq!(parse_delimiter("").unwrap_err(), expected);
}

#[test]
fn edit_operation_columns() {
    assert_eq!(
        EditOperation::all(),
        [EditOperation::Substitutions, EditOperation::Indels, EditOperation::IndelDiff]
    );
    let counts = (2u32, 3u32, 7u32);
    assert_eq!(EditOperation::Substitutions.select(counts), 2);
    assert_eq!(EditOperation::Indels.select(counts), 10);
    assert_eq!(EditOperation::IndelDiff.select(counts), 4);
    assert_eq!(EditOperation::IndelDiff.column_name("lev"), "lev_indel_diff");
    assert_eq!(EditOperation::Substitutions.suffix(), "substitutions");
}

#[test]
fn indel_columns_ignore_pair_order() {
    for op in EditOperation::all() {
        if op != EditOperation::Substitutions {
            assert_eq!(op.select((1, 9, 4)), op.select((1, 4, 9)));
        }
    }
    assert_eq!(EditOperation::Indels.select((0, u32::MAX, u32::MAX)), 2 * (u32::MAX as u64));
}

#[test]
fn algorithm_keys_are_trimmed_and_lowercased() {
    assert_eq!(normalize_key("  Levenshtein \t"), "levenshtein");
    assert_eq!(normalize_key("NGram"), "ngram");
    assert_eq!(
        resolve_algorithm("a.toml", " Jaro_Winkler\n").unwrap(),
        ("jaro_winkler".to_string(), AlgorithmKind::JaroWinkler)
    );
    assert_eq!(AlgorithmKind::from_key("chartfidf"), Some(AlgorithmKind::CharTfIdf));
    assert_eq!(AlgorithmKind::from_key("tfidf"), Some(AlgorithmKind::CharTfIdf));
    assert_eq!(AlgorithmKind::from_key("Soundex"), None);
}

#[test]
fn unknown_algorithm_names_key_and_file() {
    assert_eq!(
        resolve_algorithm("cfg/x.toml", " Foo ").unwrap_err(),
        Error::UnknownAlgorithm { algorithm: "foo".to_string(), file: "cfg/x.toml".to_string() }
    );
}

#[test]
fn config_file_names_need_toml() {
    assert_eq!(toml_file_name("notatoml.json", false).unwrap_err(), "file must be a .toml");
    assert_eq!(toml_file_name("a.toml", false).unwrap(), "a.toml");
    assert_eq!(toml_file_name("a.toml", true).unwrap(), "a.toml");
    assert_eq!(toml_file_name("cfg", true).unwrap(), "cfg.toml");
    assert!(toml_file_name(".tom", false).is_err());
}

fn summary(count: usize, first_non_finite: Option<usize>, has_negative: bool, one: bool) -> WeightSummary {
    WeightSummary { count, first_non_finite, has_negative, total_is_one: one }
}

#[test]
fn ensemble_modes_constrain_weights() {
    let ok = summary(3, None, false, true);
    for mode in [EnsembleConfig::Linear, EnsembleConfig::Conical, EnsembleConfig::Affine, EnsembleConfig::Convex] {
        assert_eq!(mode.check_weights(ok), Ok(()));
        assert_eq!(mode.check_weights(summary(0, None, false, false)), Err(WeightProblem::Empty));
        assert_eq!(mode.check_weights(summary(3, Some(2), false, true)), Err(WeightProblem::NonFinite(2)));
    }
    let negative = summary(2, None, true, true);
    assert_eq!(EnsembleConfig::Linear.check_weights(negative), Ok(()));
    assert_eq!(EnsembleConfig::Affine.check_weights(negative), Ok(()));
    assert_eq!(EnsembleConfig::Conical.check_weights(negative), Err(WeightProblem::Negative));
    assert_eq!(EnsembleConfig::Convex.check_weights(negative), Err(WeightProblem::Negative));
    let half = summary(2, None, false, false);
    assert_eq!(EnsembleConfig::Linear.check_weights(half), Ok(()));
    assert_eq!(EnsembleConfig::Conical.check_weights(half), Ok(()));
    assert_eq!(EnsembleConfig::Affine.check_weights(half), Err(WeightProblem::NotUnitSum));
    // Weights 1.0 and -1.0: no sum requirement for linear ones.
    let cancelling = summary(2, None, true, false);
    assert_eq!(EnsembleConfig::Linear.check_weights(cancelling), Ok(()));
    assert_eq!(EnsembleConfig::Affine.check_weights(cancelling), Err(WeightProblem::NotUnitSum));
}

#[test]
fn trimming_and_lowercasing_text() {
    assert_eq!(trim_chars(" \u{3000}ab c\n"), vec!['a', 'b', ' ', 'c']);
    assert_eq!(trim_chars("   "), Vec::<char>::new());
    assert_eq!(normalize_input("ÀB", true), vec!['à', 'b']);
    assert_eq!(normalize_input("ÀB", false), vec!['À', 'B']);
}

#[test]
fn ipa_transcriptions_are_read_greedily() {
    assert_eq!(
        str_to_ipa("tʃiz"),
        vec![IPA::VoicelessPostalveolarAffricate, IPA::CloseFront, IPA::VoicedAlveolarFricative]
    );
    assert_eq!(str_to_ipa("t?s"), vec![IPA::VoicelessAlveolarStop, IPA::VoicelessAlveolarFricative]);
    assert!(str_to_ipa("").is_empty());
}

#[test]
fn ipa_symbols_read_back() {
    assert_eq!(IPA::Schwa.as_str(), "ə");
    assert_eq!(IPA::VoicelessPostalveolarAffricate.as_str(), "tʃ");
    for p in [
        IPA::Schwa,
        IPA::CloseFront,
        IPA::VelarNasal,
        IPA::VoicedPostalveolarAffricate,
        IPA::DiphthongAU,
        IPA::DiphthongAI,
        IPA::DiphthongEI,
    ] {
        assert_eq!(str_to_ipa(p.as_str()), vec![p]);
    }
    assert_eq!(str_to_ipa("aʊ"), vec![IPA::DiphthongAU]);
    assert!(str_to_ipa(IPA::RegularColon.as_str()).is_empty());
}

use pho::algorithms::validation::UnknownTokenError;
use pho::cli::{name_le, report_order, widest_name};

#[test]
fn report_is_sorted_by_name_then_position() {
    let names: Vec<String> = ["soundex", "lcsuf", "metaphone", "lcsuf", "Zeta"]
        .iter()
        .map(|s| s.to_string())
        .collect();
    assert_eq!(report_order(&names), vec![4, 1, 3, 2, 0]);
    assert_eq!(report_order(&Vec::new()), Vec::<usize>::new());
    assert!(name_le("ab", "abc"));
    assert!(!name_le("b", "abc"));
    assert!(name_le("", ""));
}

#[test]
fn widest_name_counts_bytes() {
    let names = vec!["ab".to_string(), "ñ".to_string(), "xyz".to_string()];
    assert_eq!(widest_name(&names), 3);
    assert_eq!(widest_name(&vec!["ññ".to_string()]), 4);
    assert_eq!(widest_name(&Vec::new()), 0);
}

#[test]
fn unknown_token_message() {
    let e = UnknownTokenError { token: "q".to_string(), position: 120, input_name: "x", context: "groups" };
    assert_eq!(e.message(), "Unknown token 'q' at position 120 in x (not found in groups)");
    let e = UnknownTokenError { token: "ʘ".to_string(), position: 0, input_name: "y", context: "IPA" };
    assert_eq!(e.message(), "Unknown token 'ʘ' at position 0 in y (not found in IPA)");
}

use pho::cli::config_algorithm;

#[test]
fn config_documents_name_their_algorithm() {
    assert_eq!(
        config_algorithm("lev.toml", "algorithm = \" Levenshtein \"\ncase_insensitive = true\n").unwrap(),
        ("levenshtein".to_string(), AlgorithmKind::Levenshtein)
    );
    assert_eq!(
        config_algorithm("x.toml", "case_insensitive = true\n").unwrap_err(),
        Error::MissingAlgorithmKey { file: "x.toml".to_string() }
    );
    assert_eq!(
        config_algorithm("x.toml", "algorithm = 3\n").unwrap_err(),
        Error::MissingAlgorithmKey { file: "x.toml".to_string() }
    );
    assert_eq!(
        config_algorithm("x.toml", "algorithm = \"nope\"\n").unwrap_err(),
        Error::UnknownAlgorithm { algorithm: "nope".to_string(), file: "x.toml".to_string() }
    );
    assert!(matches!(
        config_algorithm("x.toml", "algorithm = = \n").unwrap_err(),
        Error::ConfigParse { .. }
    ));
}

#[test]
fn white_space_matches_char_is_whitespace() {
    for v in 0..=0x10FFFFu32 {
        if let Some(c) = char::from_u32(v) {
            assert_eq!(pho::text::is_white_space(c), c.is_whitespace(), "{:#x}", v);
        }
    }
}
