//! A compiler front end and SSA middle end for a small statically typed,
//! expression-oriented language: lexer, Pratt parser, type checker, an SSA
//! intermediate representation with builders, and a constant-folding pass.

pub mod backend;
pub mod cli;
pub mod driver;
pub mod frontend;
pub mod global;
pub mod text;
