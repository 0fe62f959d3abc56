//! Helpers shared by the analyses.

pub mod color_wrapper;
pub mod rope;
pub mod text;
