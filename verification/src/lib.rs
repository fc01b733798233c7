//! Verified storage model, provider-output parsers and probe assembly logic.

pub mod errors;
pub mod model;
pub mod text;
pub mod collections;
pub mod parse;
pub mod provider;
pub mod probe;
