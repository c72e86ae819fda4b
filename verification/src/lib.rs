//! Front end of a small expression language: a character-stream lexer and a
//! recursive-descent expression parser that builds an abstract syntax tree.

pub mod ast;
pub mod error;
pub mod laws;
pub mod lexer;
pub mod parser;
pub mod scan;
pub mod token;
