//! Building feature datasets from string pairs.
pub mod export;
pub mod features;
pub mod fil_features;
pub mod row;
pub mod split;
