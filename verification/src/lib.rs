pub mod api;
pub mod ast;
pub mod error;
pub mod function;
pub mod interpreter;
pub mod parser;
pub mod scanner;
pub mod stack;
pub mod text;
pub mod worker;
