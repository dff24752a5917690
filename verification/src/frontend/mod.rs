//! The front end: lexer, parser and type checker.

pub mod lexer;
pub mod parser;
pub mod plugins;
pub mod typechecker;
pub mod typeregistry;
