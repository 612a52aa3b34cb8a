pub mod ast;
pub mod parselets;
pub mod parser;
pub mod pretty;
