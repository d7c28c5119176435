//! A front end and evaluator for a small expression language: a scanner and a
//! lexer, a recursive-descent builder of syntax trees, and a tree-walking
//! interpreter with lexical scopes.

pub mod args;
pub mod ast;
pub mod errors;
pub mod grammar;
pub mod interpreter;
pub mod lexer;
pub mod log;
pub mod parser;
pub mod printer;
pub mod scanner;
pub mod text;
pub mod tokens;
pub mod utils;
