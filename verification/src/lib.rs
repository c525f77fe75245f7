//! A compiler front end: lexer, parser and type checker for a small
//! systems language, with verified contracts on every phase.
pub mod text;
pub mod lexer;
pub mod ast;
pub mod parser;
pub mod typechecker;
pub mod codegen;
