pub mod token;
pub mod spec;
pub mod lexer;
