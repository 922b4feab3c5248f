//! Lexical analysis for a small interpreted language: a byte-level scanner
//! that turns source text into a stream of classified tokens.

pub mod token;
pub mod lexeme;
pub mod lexer;
pub mod laws;

pub use lexer::Lexer;
pub use token::{Token, TokenType, newToken};
