//! The module builder.

use super::super::super::entities::{Function, FunctionSignature};
use super::super::context::Module;
use super::functionbuilder::FunctionBuilder;
use crate::text::models;
use vstd::prelude::*;

verus! {
/// Gathers functions for a module; `build` hands them over.
pub struct Builder<'a> {
    pub module: &'a mut Module,
    pub functions: Vec<Function>,
}

impl<'a> Builder<'a> {
    /// A builder for the module, with no function gathered yet.
    pub fn new(module: &'a mut Module) -> (r: Builder<'a>)
        ensures
            *r.module == *old(module),
            *final(module) == *final(r.module),
            r.functions@.len() == 0,
    {
        Builder { module, functions: Vec::new() }
    }

    /// Begins a function without blocks. Values are numbered from the
    /// number of the signature's parameters on.
    pub fn create_function(&self, name: &str, sig: FunctionSignature) -> (r: FunctionBuilder)
        ensures
            r.function.alias@ == name@,
            r.function.blocks@.len() == 0,
            r.function.sig == sig,
            r.next_id == sig.params@.len(),
            r.next_block_id == 0,
    {
        let next_id = sig.params.len();
        FunctionBuilder {
            function: Function { alias: name.to_owned(), blocks: Vec::new(), sig },
            next_id,
            next_block_id: 0,
        }
    }

    /// Gathers a finished function.
    pub fn eat_function(&mut self, function: Function)
        ensures
            final(self).functions@ == old(self).functions@.push(function),
            final(self).module == old(self).module,
    {
        self.functions.push(function);
    }

    /// Appends the gathered functions to the module, in the order in which
    /// they were gathered.
    pub fn build(self)
        ensures
            final(self.module)@.functions == old(self.module)@.functions + models(self.functions@),
            final(self.module)@.name == old(self.module)@.name,
    {
        let Builder { module, functions } = self;
        let ghost before = models(module.functions@);
        let ghost added = models(functions@);
        let mut functions = functions;
        module.functions.append(&mut functions);
        assert(models(module.functions@) =~= before + added);
    }
}
} // verus!
