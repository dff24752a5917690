//! The middle end: the SSA intermediate representation and its passes.

pub mod ir;
pub mod lowering;
