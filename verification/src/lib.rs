//! Front end of a small statically-typed expression language: an abstract
//! syntax tree and a verified lexer/parser that turns one source line into
//! an `Expr` tree or a `SyntaxError`.

pub mod ast;
pub mod grammar;
pub mod laws;
pub mod lexer;
pub mod parser;
pub mod token;
