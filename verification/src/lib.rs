//! Front end of the quasm language: a lexer, a parser, a semantic checker
//! and the first pieces of a WebAssembly back end.

pub mod common;
pub mod text;
pub mod lexer;
pub mod parser;
pub mod sema;
pub mod lower;
pub mod codegen;
