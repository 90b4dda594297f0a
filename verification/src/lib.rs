//! A small expression-language front end: lexing of arithmetic/boolean
//! expressions and typed tree-walking evaluation.
//!
//! The pipeline is: source text -> [`lexer::Lexer::tokenize`] -> tokens ->
//! (an external parser) -> [`ast::Expression`] -> [`exec::Executer::eval`] ->
//! value or error.

pub mod ast;
pub mod error;
pub mod exec;
pub mod lexer;
pub mod strutil;
