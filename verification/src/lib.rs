//! Matching of spreadsheet rows against documents of a document store:
//! rule compilation, query construction, the row-by-row engine and the
//! text transforms they share.

pub mod cell;
pub mod column;
pub mod document;
pub mod engine;
pub mod error;
pub mod fill;
pub mod filter;
pub mod machine;
pub mod plan;
pub mod progress;
pub mod query;
pub mod rules;
pub mod text;
