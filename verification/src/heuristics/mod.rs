//! Checks that point out what is unusual in the structure of a document.
pub mod analyzer;
