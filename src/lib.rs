//! Front end of a small scripting language: a lexer that turns source text
//! into tokens and a Pratt parser that turns tokens into a syntax tree.

mod text;
pub mod token;
pub mod lexer;
pub mod ast;
pub mod parser;
