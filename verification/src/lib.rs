//! Lexical scanner for a small Lua-inspired scripting language.
//!
//! The scanner turns a fully materialized text buffer into a pull-based
//! stream of classified, location-tagged tokens.  Scanning is total: every
//! request either yields exactly one token or signals clean end of input,
//! and unrecognizable input degrades to `Undefined` tokens instead of
//! raising errors.

pub mod laws;
pub mod lexer;
pub mod scan;
pub mod token;

pub use lexer::Lexer;
pub use scan::LexerModel;
pub use token::Span;
pub use token::SpanModel;
pub use token::TokModel;
pub use token::TokType;
pub use token::Token;
pub use token::TokenModel;
