//! Phonetic and orthographic similarity algorithms.
pub mod algorithms;
pub mod cli;
pub mod config;
pub mod dataset;
pub mod ensemble;
pub mod error;
pub mod ipa;
pub mod text;
