//! IPA symbols and the tokenizer that reads them from text.
pub mod mapper;
pub mod symbols;
