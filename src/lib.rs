//! A small pattern matcher over bytes: literals, `.` for any byte, the
//! anchors `^` and `$`, the quantifiers `*` and `?` on a single atom, and
//! `\` to take the next byte literally.
//!
//! A pattern is compiled once into a sequence of atoms (`Regex::new`) and
//! then asked, any number of times, whether it matches somewhere in a text
//! (`Regex::is_match`). Both are specified over `parse` and `search`.
use vstd::prelude::*;

mod atom;
mod compile;
mod matcher;
mod regex;

pub use atom::{CardinalChar, RegexChar};
pub use compile::{
    anchors_well_placed, bind_quantifier, parse, parse_from, quantified, CompileError, Quantifier, END_ANCHOR,
    ESCAPE, START_ANCHOR, WILDCARD, ZERO_OR_MORE, ZERO_OR_ONE,
};
pub use matcher::{
    anchor_free, full_match, lemma_match_here_is_prefix_match, lemma_search_is_substring_match, match_here,
    run_of, search,
};
pub use regex::{
    lemma_compile_is_deterministic, lemma_empty_pattern_matches_every_text, lemma_escaped_star_is_literal, Regex,
};
