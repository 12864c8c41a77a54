//! A lexer for a small Verilog-like hardware-description language.
//!
//! Source text goes in, an ordered sequence of [`Token`]s comes out. Every
//! executable function carries a contract over the text seen as a sequence of
//! characters, and the contract is proved.

pub mod chars;
pub mod laws;
pub mod lexer;
pub mod scan;
pub mod symbol;
pub mod token;
pub mod word;

pub use lexer::{tokenize, tokens, LexError};
pub use token::{Lexeme, Token};
pub use word::is_number;
