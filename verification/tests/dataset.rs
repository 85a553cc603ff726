use pho::algorithms::ratio::Ratio;
use pho::dataset::export::{export_format, format_of_extension, ExportFormat};
use pho::dataset::features::{
    length_feature_values, normalized_algorithm_label, validate_shape, word_level_features,
    FeatureValue, WordFeature,
};
use pho::dataset::fil_features::{
    fil_feature_values, penult_vowel, sanitize, vowel_skeleton, FilFeature,
};
use pho::dataset::row::pair_for;
use pho::dataset::split::{split_rows, LabelClass};
use pho::error::Error;

use rand::rngs::StdRng;
use rand::SeedableRng;
use std::collections::HashSet;

#[test]
fn word_level_features_skip_existing_columns() {
    let existing = vec!["len_x1".to_string(), "common_prefix_ratio".to_string()];
    let features = word_level_features(&existing);
    assert_eq!(features.len(), 13);
    assert!(!features.contains(&WordFeature::LenX1));
    assert!(!features.contains(&WordFeature::CommonPrefixRatio));
    assert_eq!(features[0], WordFeature::LenX2);
    assert_eq!(word_level_features(&Vec::new()), WordFeature::all());
    assert_eq!(WordFeature::all().len(), 15);
    assert_eq!(WordFeature::SyllableDiff.name(), "syllable_diff");
    assert_eq!(WordFeature::FirstMismatchPos.name(), "first_mismatch_pos");
}

#[test]
fn prefix_column_is_renamed_with_word_features() {
    assert_eq!(normalized_algorithm_label("Prefix", true), "common_prefix_ratio");
    assert_eq!(normalized_algorithm_label("Prefix", false), "Prefix");
    assert_eq!(normalized_algorithm_label("Soundex", true), "Soundex");
}

#[test]
fn length_features_of_a_pair() {
    let values = length_feature_values("hello", "help", &WordFeature::all());
    assert_eq!(
        values,
        vec![
            FeatureValue::Count(5),
            FeatureValue::Count(4),
            FeatureValue::Count(4),
            FeatureValue::Count(5),
            FeatureValue::Count(1),
            FeatureValue::Ratio(Ratio { num: 4, den: 5 }),
            FeatureValue::Count(3),
            FeatureValue::Ratio(Ratio { num: 3, den: 5 }),
            FeatureValue::Count(0),
            FeatureValue::Ratio(Ratio { num: 0, den: 5 }),
            FeatureValue::Ratio(Ratio { num: 3, den: 4 }),
            FeatureValue::Flag(true),
            FeatureValue::Count(0),
            FeatureValue::Count(1),
            FeatureValue::Count(1),
        ]
    );
}

#[test]
fn letter_class_features_count_differences() {
    let features = vec![WordFeature::ConsonantCountDiff, WordFeature::SyllableDiff, WordFeature::VowelCountDiff];
    assert_eq!(
        length_feature_values("ab", "abcd", &features),
        vec![FeatureValue::Count(2), FeatureValue::Count(0), FeatureValue::Count(0)]
    );
    assert_eq!(
        length_feature_values("Aerial", "rhythm", &features),
        vec![FeatureValue::Count(4), FeatureValue::Count(2), FeatureValue::Count(4)]
    );
    assert_eq!(
        pho::dataset::features::letter_counts("Queue-3 ño"),
        (2, 5, 2)
    );
}

#[test]
fn length_features_of_empty_pair_are_full() {
    let values = length_feature_values("", "", &WordFeature::all());
    assert_eq!(values[5], FeatureValue::Ratio(Ratio { num: 1, den: 1 }));
    assert_eq!(values[7], FeatureValue::Ratio(Ratio { num: 1, den: 1 }));
    assert_eq!(values[10], FeatureValue::Ratio(Ratio { num: 1, den: 1 }));
    assert_eq!(values[11], FeatureValue::Flag(true));
    let one_empty = length_feature_values("", "ab", &vec![WordFeature::FirstCharMatch]);
    assert_eq!(one_empty, vec![FeatureValue::Flag(false)]);
}

#[test]
fn strict_prefix_reports_full_first_mismatch_agreement() {
    let values = length_feature_values("help", "helper", &vec![WordFeature::FirstMismatchPos]);
    assert_eq!(values, vec![FeatureValue::Ratio(Ratio { num: 4, den: 4 })]);
}

#[test]
fn suffix_features_count_from_the_end() {
    let values = length_feature_values(
        "naming",
        "ring",
        &vec![WordFeature::CommonSuffixLen, WordFeature::CommonSuffixRatio],
    );
    assert_eq!(
        values,
        vec![FeatureValue::Count(3), FeatureValue::Ratio(Ratio { num: 3, den: 6 })]
    );
}

fn shape_message(r: Result<(), Error>) -> String {
    match r {
        Err(Error::InvalidDatasetShape(m)) => m,
        other => panic!("unexpected {:?}", other),
    }
}

#[test]
fn validate_shape_reports_each_mismatch() {
    let scores: Vec<Vec<f32>> = vec![vec![0.5, 0.5], vec![0.1, 0.2]];
    let none: Vec<Vec<String>> = Vec::new();
    assert!(validate_shape(2, 2, &scores, 2, 0, &none).is_ok());
    assert_eq!(
        shape_message(validate_shape(2, 1, &scores, 2, 0, &none)),
        "inputs and labels must have same length"
    );
    assert_eq!(
        shape_message(validate_shape(3, 3, &scores, 2, 0, &none)),
        "inputs and base_scores must have same length"
    );
    assert_eq!(
        shape_message(validate_shape(2, 2, &scores, 3, 0, &none)),
        "every base_scores row must match algorithm count"
    );
    let one_row = vec![vec!["a".to_string()]];
    assert_eq!(
        shape_message(validate_shape(2, 2, &scores, 2, 1, &one_row)),
        "passthrough rows must match input count"
    );
    let two_rows = vec![vec!["a".to_string()], vec!["b".to_string(), "c".to_string()]];
    assert_eq!(
        shape_message(validate_shape(2, 2, &scores, 2, 1, &two_rows)),
        "every passthrough row must match passthrough header count"
    );
    let good_rows = vec![vec!["a".to_string()], vec!["b".to_string()]];
    assert!(validate_shape(2, 2, &scores, 2, 1, &good_rows).is_ok());
    assert_eq!(
        shape_message(validate_shape(2, 2, &scores, 2, 1, &none)),
        "passthrough rows must match input count"
    );
}

#[test]
fn pair_for_picks_raw_or_transcribed_forms() {
    let (x, y) = ("word".to_string(), "ward".to_string());
    let (t1, t2) = (Some("wɜd".to_string()), Some("wɔɹd".to_string()));
    assert_eq!(pair_for(&x, &y, &t1, &t2, false, "x", 0).unwrap(), ("word", "ward"));
    assert_eq!(pair_for(&x, &y, &t1, &t2, true, "x", 0).unwrap(), ("wɜd", "wɔɹd"));
}

#[test]
fn pair_for_rejects_missing_transcription() {
    let (x, y) = ("a".to_string(), "b".to_string());
    let t2 = Some("b".to_string());
    let r = pair_for(&x, &y, &None, &t2, true, "aline", 3);
    assert_eq!(
        r.unwrap_err(),
        Error::MissingTranscription { algorithm: "aline".to_string(), row_index: 3 }
    );
    assert!(pair_for(&x, &y, &None, &None, false, "aline", 3).is_ok());
}

#[test]
fn filipino_vowel_skeleton_and_penult() {
    assert_eq!(vowel_skeleton("tsokolate"), vec!['u', 'u', 'a', 'i']);
    assert_eq!(penult_vowel(&vowel_skeleton("tsokolate")), Some('a'));
    assert_eq!(penult_vowel(&vec!['o']), Some('o'));
    assert_eq!(penult_vowel(&Vec::new()), None);
    assert_eq!(sanitize("Ñino-3A"), "ñinoa");
}

#[test]
fn filipino_features_of_a_pair() {
    let values = fil_feature_values("tsokolate", "tsokolati", &FilFeature::all());
    assert_eq!(values, vec![true, true, true, false, false]);
    let same = fil_feature_values("kape", "kape", &FilFeature::all());
    assert_eq!(same, vec![true, true, true, true, true]);
    assert_eq!(FilFeature::CodaMatch.name(), "fil_coda_match");
}

#[test]
fn export_format_follows_the_extension() {
    assert_eq!(export_format("out.csv", true).unwrap(), ExportFormat::Csv);
    assert_eq!(export_format("dir/out.ipc", false).unwrap(), ExportFormat::Arrow);
    assert_eq!(export_format("out.arrow", false).unwrap(), ExportFormat::Arrow);
    assert_eq!(export_format("out.parquet", true).unwrap(), ExportFormat::Parquet);
    assert_eq!(
        export_format("out.parquet", false).unwrap_err(),
        Error::InvalidExtension("out.parquet".to_string())
    );
    assert_eq!(
        export_format("noext", true).unwrap_err(),
        Error::InvalidExtension("noext".to_string())
    );
    assert_eq!(format_of_extension(&Some("csv".to_string()), false), Some(ExportFormat::Csv));
    assert_eq!(format_of_extension(&None, true), None);
}

fn rounded(n: usize, fraction: f64) -> Vec<usize> {
    (0..=n).map(|k| ((k as f64) * fraction).round() as usize).collect()
}

fn sample_classes() -> Vec<LabelClass> {
    let mut classes = vec![LabelClass::Positive; 6];
    classes.extend(vec![LabelClass::Negative; 4]);
    classes.extend(vec![LabelClass::Unlabeled; 2]);
    classes
}

fn count(indices: &[usize], classes: &[LabelClass], c: LabelClass) -> usize {
    indices.iter().filter(|&&i| classes[i] == c).count()
}

#[test]
fn stratified_split_keeps_each_stratum_in_both_parts() {
    let classes = sample_classes();
    let mut rng = StdRng::seed_from_u64(7);
    let (train, test) = split_rows(&classes, &rounded(classes.len(), 0.75), true, false, &mut rng);
    let all: HashSet<usize> = train.iter().chain(test.iter()).copied().collect();
    assert_eq!(all.len(), classes.len());
    assert_eq!(train.len() + test.len(), classes.len());
    assert_eq!(count(&train, &classes, LabelClass::Positive), 5);
    assert_eq!(count(&test, &classes, LabelClass::Positive), 1);
    assert_eq!(count(&train, &classes, LabelClass::Negative), 3);
    assert_eq!(count(&test, &classes, LabelClass::Negative), 1);
    assert_eq!(count(&train, &classes, LabelClass::Unlabeled), 1);
    assert_eq!(count(&test, &classes, LabelClass::Unlabeled), 1);
}

#[test]
fn balanced_split_undersamples_the_majority() {
    let classes = sample_classes();
    let mut rng = StdRng::seed_from_u64(11);
    let (train, test) = split_rows(&classes, &rounded(classes.len(), 0.75), true, true, &mut rng);
    assert_eq!(count(&train, &classes, LabelClass::Positive), 3);
    assert_eq!(count(&train, &classes, LabelClass::Negative), 3);
    assert_eq!(count(&train, &classes, LabelClass::Unlabeled), 1);
    assert_eq!(test.len(), 3);
    assert!(train.iter().all(|i| !test.contains(i)));
}

#[test]
fn plain_split_is_shuffled_and_covers_everything() {
    let classes = vec![LabelClass::Unlabeled; 50];
    let mut rng = StdRng::seed_from_u64(3);
    let (train, test) = split_rows(&classes, &rounded(50, 0.8), false, false, &mut rng);
    assert_eq!(train.len(), 40);
    assert_eq!(test.len(), 10);
    let mut all: Vec<usize> = train.iter().chain(test.iter()).copied().collect();
    let in_order: Vec<usize> = (0..40).collect();
    assert_ne!(train, in_order);
    all.sort();
    assert_eq!(all, (0..50).collect::<Vec<usize>>());
}

#[test]
fn tiny_parts_keep_one_row_on_each_side() {
    let classes = vec![LabelClass::Positive; 2];
    let mut rng = StdRng::seed_from_u64(1);
    let (train, test) = split_rows(&classes, &rounded(2, 0.99), false, false, &mut rng);
    assert_eq!((train.len(), test.len()), (1, 1));
    let single = vec![LabelClass::Negative];
    let (train, test) = split_rows(&single, &rounded(1, 0.5), true, false, &mut rng);
    assert_eq!((train.len(), test.len()), (0, 1));
}

#[test]
fn export_header_puts_passthrough_or_pair_columns_first() {
    let names = vec!["lev".to_string(), "len_x1".to_string()];
    assert_eq!(
        pho::dataset::export::export_header(&Vec::new(), &names),
        vec!["x_1", "x_2", "label", "lev", "len_x1"]
    );
    let headers = vec!["id".to_string(), "x".to_string()];
    assert_eq!(
        pho::dataset::export::export_header(&headers, &names),
        vec!["id", "x", "lev", "len_x1"]
    );
}

#[test]
fn balancing_alone_matches_a_balanced_split() {
    let classes = sample_classes();
    let table = rounded(classes.len(), 0.75);
    let mut a = StdRng::seed_from_u64(5);
    let balanced = split_rows(&classes, &table, true, true, &mut a);
    let mut b = StdRng::seed_from_u64(5);
    let (train, test) = split_rows(&classes, &table, true, false, &mut b);
    let rebalanced = pho::dataset::split::balance_indices(&classes, &train, &mut b);
    assert_eq!(balanced, (rebalanced, test));
}
