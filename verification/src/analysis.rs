//! Documents and the analyses that run on them.

pub mod diagnostics;
pub mod document;
pub mod legend;
pub mod positions;
pub mod semantic_token;
pub mod session;
pub mod window;
