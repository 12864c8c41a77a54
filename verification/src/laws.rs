//! What holds of the lexer on every text.

pub mod completeness;
pub mod spacing;
pub mod text;
pub mod tokens;
