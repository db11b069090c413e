pub mod ast;
pub mod span;
