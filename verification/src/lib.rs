//! Parser for the XKB symbols configuration language.
//!
//! The crate turns the text of a symbols file into a typed syntax tree:
//! top-level layout fragments, each holding a named block of statements
//! (inclusions, group labels, key-to-symbol mappings and modifier maps).
//! Leaf nodes borrow their text from the input, so the tree must not
//! outlive the source buffer. Parsing performs no I/O and no semantic
//! interpretation: resolving inclusions or symbol names is the caller's
//! concern.
//!
//! [`parse::parse_file`] is the main entry point; its whole behaviour is
//! fixed by the grammar's spec functions in [`grammar`], which state, for
//! every input, both the tree a valid text derives and that an invalid
//! text is rejected with a located error.

pub mod ast;
pub mod error;
pub mod grammar;
pub mod laws;
pub mod lex;
pub mod parse;
