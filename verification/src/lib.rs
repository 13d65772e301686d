//! A small line-oriented text-search library: split a text into lines and
//! report, in file order, every line that contains a query string, either
//! exactly or under simple (ASCII) case folding.

use vstd::prelude::*;

mod config;
mod engine;
mod laws;
mod seqs;
mod text;

verus! {

pub use crate::config::Parser;
pub use crate::engine::insensitive_search;
pub use crate::engine::search;
pub use crate::engine::search_lines;
pub use crate::engine::split_lines;
pub use crate::laws::lemma_absent_query_no_matches;
pub use crate::laws::lemma_absent_query_no_matches_nocase;
pub use crate::laws::lemma_contains_trans;
pub use crate::laws::lemma_empty_query_matches_all;
pub use crate::laws::lemma_empty_text_no_matches;
pub use crate::laws::lemma_insensitive_search_deterministic;
pub use crate::laws::lemma_lines_in_text;
pub use crate::laws::lemma_lower_preserves_contains;
pub use crate::laws::lemma_search_deterministic;
pub use crate::text::contains_query;
pub use crate::text::lower;
pub use crate::text::lower_char;
pub use crate::text::matching_lines;
pub use crate::text::matching_lines_nocase;
pub use crate::text::spec_lines;

} // verus!
