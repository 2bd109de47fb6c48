//! Verified core of a search service over a media catalog: readers for the
//! tab-delimited source datasets, cross-reference joins, document builders,
//! query composition, and a fixed-point relevance scorer.  The full-text
//! engine (tantivy) is reached only through the trusted wrappers in `engine`.

pub mod datasets;
pub mod docs;
pub mod engine;
pub mod indexer;
pub mod numeric;
pub mod records;
pub mod rows;
pub mod scoring;
pub mod search;
pub mod strmap;
pub mod text;
pub mod types;
pub mod xref;
