//! The builders that assemble a module: instructions into blocks, blocks
//! into functions, functions into the module.

pub mod blockbuilder;
pub mod builder;
pub mod functionbuilder;
pub mod instbuilder;
