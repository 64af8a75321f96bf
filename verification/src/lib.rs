//! Lexical analysis and parsing front end for a simplified SQL dialect.
//!
//! Source text is turned into a sequence of classified [`token::Token`]s by the
//! finite-state [`lexer::Lexer`], wrapped in the forward-only [`parser::Parser`]
//! cursor, and consumed by grammar rules implementing [`ast::Syntax`].

pub mod ast;
pub mod lexer;
pub mod parser;
pub mod token;
