//! Which strings of a dataset row an algorithm scores.
use vstd::prelude::*;

use crate::error::Error;

verus! {

/// The pair an algorithm scores for a row: the raw forms, or, for an
/// algorithm that requires transcriptions, the two transcriptions.
pub open spec fn pair_for_spec(
    x_1: Seq<char>,
    x_2: Seq<char>,
    t_1: Option<Seq<char>>,
    t_2: Option<Seq<char>>,
    requires_transcription: bool,
) -> Option<(Seq<char>, Seq<char>)> {
    if !requires_transcription {
        Some((x_1, x_2))
    } else {
        match (t_1, t_2) {
            (Some(a), Some(b)) => Some((a, b)),
            _ => None,
        }
    }
}

/// Picks the strings of a row that an algorithm scores. An algorithm that
/// requires transcriptions fails on a row that lacks either of them, with
/// the algorithm's name and the row's index.
pub fn pair_for<'a>(
    x_1: &'a String,
    x_2: &'a String,
    t_1: &'a Option<String>,
    t_2: &'a Option<String>,
    requires_transcription: bool,
    algorithm_name: &str,
    row_index: usize,
) -> (r: Result<(&'a str, &'a str), Error>)
    ensures
        match pair_for_spec(x_1@, x_2@, t_1.deep_view(), t_2.deep_view(), requires_transcription) {
            Some((a, b)) => r matches Ok((ra, rb)) && ra@ == a && rb@ == b,
            None => r matches Err(Error::MissingTranscription { algorithm, row_index: idx })
                && algorithm@ == algorithm_name@ && idx == row_index,
        },
{
    if !requires_transcription {
        return Ok((x_1.as_str(), x_2.as_str()));
    }
    match (t_1, t_2) {
        (Some(a), Some(b)) => Ok((a.as_str(), b.as_str())),
        _ => Err(Error::MissingTranscription { algorithm: algorithm_name.to_owned(), row_index }),
    }
}

} // verus!
