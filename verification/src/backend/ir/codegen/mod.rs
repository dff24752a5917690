//! Assembling modules: the context that owns them and the builders.

pub mod builders;
pub mod context;
