//! Front end of the Rest language compiler: lexing, parsing, type checking,
//! lowering to HIR, borrow checking, and the ownership bookkeeping that drives
//! reference-count release during code generation.

pub mod text;
pub mod lexer;
pub mod ops;
pub mod ty;
pub mod scope_stack;
pub mod ast;
pub mod typeck_spec;
pub mod typeck;
pub mod hir;
pub mod lower;
pub mod borrowck_spec;
pub mod borrowck;
pub mod parser;
pub mod ownership;
pub mod emit;
pub mod http;
pub mod release;
