//! What a user of the intermediate representation needs, in one import.

pub use super::codegen::builders::blockbuilder::BlockBuilder;
pub use super::codegen::builders::builder::Builder;
pub use super::codegen::builders::functionbuilder::FunctionBuilder;
pub use super::codegen::builders::instbuilder::InstBuilder;
pub use super::codegen::context::{Context, Module};
pub use super::entities::FunctionSignature;
pub use super::inst::{BlockCall, CmpPred};
pub use super::optimization::constantfolder::ConstantFolder;
pub use super::optimization::{OptimizationPass, Optimizer, Pass};
pub use super::types;
