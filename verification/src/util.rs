//! Numeric and set-filtering utilities used by validation.

pub mod filter;
pub mod uint;
