//! Modules, and the context that owns them.

use super::super::entities::{Function, FunctionModel};
use super::builders::builder::Builder;
use crate::text::models;
use vstd::prelude::*;

verus! {
/// A module: its name and its functions, in order.
#[derive(Debug, PartialEq)]
pub struct Module {
    pub name: String,
    pub functions: Vec<Function>,
}

pub struct ModuleModel {
    pub name: Seq<char>,
    pub functions: Seq<FunctionModel>,
}

impl View for Module {
    type V = ModuleModel;

    open spec fn view(&self) -> ModuleModel {
        ModuleModel { name: self.name@, functions: models(self.functions@) }
    }
}

impl Clone for Module {
    fn clone(&self) -> (r: Module)
        ensures
            r@ == self@,
    {
        let mut functions: Vec<Function> = Vec::new();
        let mut i: usize = 0;
        while i < self.functions.len()
            invariant
                i <= self.functions.len(),
                functions.len() == i,
                forall|k: int| 0 <= k < i ==> functions[k]@ == self.functions[k]@,
            decreases self.functions.len() - i,
        {
            functions.push(self.functions[i].clone());
            i = i + 1;
        }
        let r = Module { name: self.name.clone(), functions };
        assert(r@.functions =~= self@.functions);
        r
    }
}

impl Module {
    /// A builder that gathers functions for this module.
    pub fn builder(&mut self) -> (r: Builder<'_>)
        ensures
            *r.module == *old(self),
            *final(self) == *final(r.module),
            r.functions@.len() == 0,
    {
        Builder::new(self)
    }
}

/// The owner of the modules of a compilation.
#[derive(Debug)]
pub struct Context {
    pub modules: Vec<Module>,
}

impl Context {
    /// A context without modules.
    pub fn new() -> (r: Context)
        ensures
            r.modules@.len() == 0,
    {
        Context { modules: Vec::new() }
    }

    /// Adds an empty module of the name given and hands it out.
    pub fn create_module(&mut self, name: &str) -> (r: &mut Module)
        ensures
            r.name@ == name@,
            r.functions@.len() == 0,
            final(self).modules@ == old(self).modules@.push(*final(r)),
    {
        self.modules.push(Module { name: name.to_owned(), functions: Vec::new() });
        let last = self.modules.len() - 1;
        &mut self.modules[last]
    }

    /// Copies of the modules, in the order in which they were created.
    pub fn modules(&self) -> (r: Vec<Module>)
        ensures
            models(r@) == models(self.modules@),
    {
        let mut out: Vec<Module> = Vec::new();
        let mut i: usize = 0;
        while i < self.modules.len()
            invariant
                i <= self.modules.len(),
                out.len() == i,
                forall|k: int| 0 <= k < i ==> out[k]@ == self.modules[k]@,
            decreases self.modules.len() - i,
        {
            out.push(self.modules[i].clone());
            i = i + 1;
        }
        out
    }
}
} // verus!
