pub mod lexer;
pub mod parser;
pub mod codegen;
pub mod sema;
pub mod text;
