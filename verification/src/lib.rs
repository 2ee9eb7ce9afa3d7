//! Shorthand encoding of English prose.
//!
//! A text is rewritten by a fixed, ordered sequence of substitution rules. Every rule is a
//! stem that must be followed by an end of word (an optional plural `s` and one boundary
//! character); the stem is abbreviated and the end of word is written back as it was found.
//! What a rule makes of a text is stated in `rewrite`. The `regex` crate does the
//! rewriting; the library builds the patterns and templates, runs the rules in order, and
//! holds every text that the engine returns against the statement before it goes on.

pub mod boundary;
pub mod engine;
pub mod passes;
pub mod rewrite;
pub mod rules;
pub mod tables;

pub use boundary::{boundary_class, boundary_punctuation, word_end};
pub use engine::{replace_all, ShorthandError};
pub use passes::{
    apply_rule, cleanup_double_s, confirm_rewrite, pattern_replacement, run, suffixes,
    trailing_ed, word_replacements,
};
pub use rewrite::{boundary_char, chars_of, rewrite, whitespace_char};
pub use rules::{Anchor, Rule};
pub use tables::{cleanup_entry, suffix_table, trailing_table, word_table};
