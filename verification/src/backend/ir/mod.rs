//! The SSA intermediate representation: entities, instructions, the
//! builders that assemble them and the optimization passes over them.

pub mod codegen;
pub mod display;
pub mod entities;
pub mod inst;
pub mod optimization;
pub mod prelude;
pub mod types;
