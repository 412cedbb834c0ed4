//! Front end of a small interpreted language: a lexer that turns source text
//! into classified tokens, and a parser that recognises `let` and `return`
//! statements, collecting diagnostics instead of stopping at the first one.
pub mod token;
pub mod lexer;
pub mod parser;
