//! Live-analysis core of a language server for Bend.
//!
//! The crate keeps the text and syntax tree of every open document, turns
//! highlight events into delta-encoded semantic tokens, and resolves compiler
//! diagnostics to source ranges.

pub mod analysis;
pub mod language;
pub mod protocol;
pub mod server;
pub mod utils;
