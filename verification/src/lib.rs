//! Matching-and-annotation core of a terminal log viewer.
//!
//! A raw line of text plus the configured rules become (a) a boolean
//! "does this line pass the filter" decision and (b) a sequence of styled
//! runs for display. The pieces: a boolean filter-query language over text,
//! a fixed table of heuristic highlighting rules, a detector for structured
//! (JSON) values embedded in a line, and a span engine that merges the
//! overlapping ranges of all three sources by priority into a run list that
//! covers the line exactly.

pub mod filter;
pub mod filter_state;
pub mod highlight;
pub mod input_state;
pub mod json;
pub mod listen_state;
pub mod log_state;
pub mod rx;
pub mod state;
pub mod text;
pub mod viewer;
