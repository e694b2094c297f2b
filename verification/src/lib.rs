pub mod ast;
pub mod interpreter;
pub mod irgenerator;
pub mod lexer;
mod llvm_api;
pub mod parser;
