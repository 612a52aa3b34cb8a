pub mod environment;
pub mod function;
pub mod interpreter;
pub mod stdlib;
