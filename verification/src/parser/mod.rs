pub mod spec;
pub mod parser;
