//! Builds color-scheme theme files: every palette of sixteen colors is
//! rendered through every template by fixed placeholder substitution.

pub mod color;
pub mod matrix;
pub mod render;
pub mod scheme;
pub mod sources;
pub mod template;
pub mod text;
pub mod util;
pub mod yaml;
