//! Renders a filesystem path as a compact prompt string: contraction of a
//! top-level directory to a symbol, truncation to the last components, and
//! fish-style abbreviation of the elided components.
pub mod path;
pub mod text;
pub mod contract;
pub mod fish;
pub mod render;
