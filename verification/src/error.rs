//! The errors that the library's checks report.
use vstd::prelude::*;

verus! {

/// The unified error type of the verified library.
#[derive(Debug, Clone, PartialEq, Eq)]
pub enum Error {
    /// An n-gram size of zero.
    InvalidNGramSize(usize),
    /// A transcription-based algorithm met a row without both transcriptions.
    MissingTranscription { algorithm: String, row_index: usize },
    /// The parts of a dataset do not line up.
    InvalidDatasetShape(String),
    /// A file name without the extension the operation needs.
    InvalidExtension(String),
    /// A config names an algorithm that does not exist.
    UnknownAlgorithm { algorithm: String, file: String },
    /// A config is not a valid TOML document.
    ConfigParse { file: String, message: String },
    /// A config has no string-valued `algorithm` key at its top level.
    MissingAlgorithmKey { file: String },
}

} // verus!
