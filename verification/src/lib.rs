//! Compile-time code synthesis for Cairo record types.
//!
//! Each public entry point consumes either the raw text of an annotated
//! declaration or a flattened parse tree of it (see [`parse`]), and returns
//! synthesized Cairo source text, or a diagnostic when a precondition on the
//! declaration is violated.

use vstd::prelude::*;

pub mod generate_events;
pub mod json_derive;
pub mod num_traits;
pub mod parse;
pub mod pow;
pub mod print_traits;
pub mod text;
pub mod token_tree_parser;
pub mod zero_trait;

verus! {

/// What one generator invocation hands back to the host compiler:
/// synthesized source text, or empty text plus at least one diagnostic.
pub struct MacroOutput {
    pub content: String,
    pub diagnostics: Vec<String>,
}

} // verus!
