//! Optimization passes over modules, and the optimizer that runs them.

pub mod constantfolder;
pub mod folding;

use super::codegen::context::{Module, ModuleModel};
use crate::text::same_text;
use constantfolder::{fold_module, ConstantFolder};
use vstd::prelude::*;

verus! {
/// A pass over a module, as users of the optimizer write them. A pass has
/// a name, by which the optimizer tells passes apart. Nothing is assumed
/// of what the methods of a pass do.
pub trait OptimizationPass {
    fn name(&self) -> String;

    fn apply(&mut self, module: &mut Module);
}

/// A pass that an optimizer holds: the constant folder, or a pass of the
/// caller's under the name that it gave when it was added.
pub enum Pass {
    ConstantFolder(ConstantFolder),
    Custom { name: String, pass: Box<dyn OptimizationPass> },
}

impl Pass {
    /// The name under which the pass is held.
    pub open spec fn pass_name(self) -> Seq<char> {
        match self {
            Pass::ConstantFolder(_) => "ConstantFolder"@,
            Pass::Custom { name, .. } => name@,
        }
    }

    /// Whether applying the pass to `before` may give `after`. The constant
    /// folder gives the folded module; a pass of the caller's may give any.
    pub open spec fn may_make(self, before: ModuleModel, after: ModuleModel) -> bool {
        match self {
            Pass::ConstantFolder(_) => after == fold_module(before),
            Pass::Custom { .. } => true,
        }
    }

    /// The name under which the pass is held.
    pub fn name(&self) -> (r: String)
        ensures
            r@ == self.pass_name(),
    {
        match self {
            Pass::ConstantFolder(_) => "ConstantFolder".to_owned(),
            Pass::Custom { name, .. } => name.clone(),
        }
    }

    /// Applies the pass.
    pub fn apply(&mut self, module: &mut Module)
        ensures
            old(self).may_make(old(module)@, final(module)@),
    {
        match self {
            Pass::ConstantFolder(folder) => folder.run(module),
            Pass::Custom { pass, .. } => pass.apply(module),
        }
    }
}

/// Whether one of the passes has the name given.
pub open spec fn has_pass(passes: Seq<Pass>, name: Seq<char>) -> bool {
    exists|i: int| 0 <= i < passes.len() && (#[trigger] passes[i]).pass_name() == name
}

/// Whether the first `n` passes, applied in order to `start`, may give
/// `end`.
pub open spec fn may_result(passes: Seq<Pass>, n: nat, start: ModuleModel, end: ModuleModel) -> bool
    decreases n,
{
    if n == 0 {
        end == start
    } else {
        exists|middle: ModuleModel|
            may_result(passes, (n - 1) as nat, start, middle) && #[trigger] passes[n - 1].may_make(
                middle,
                end,
            )
    }
}

fn holds(passes: &Vec<Pass>, name: &str) -> (r: bool)
    ensures
        r == has_pass(passes@, name@),
{
    let mut i: usize = 0;
    while i < passes.len()
        invariant
            i <= passes.len(),
            forall|k: int| 0 <= k < i ==> passes@[k].pass_name() != name@,
        decreases passes.len() - i,
    {
        let n = passes[i].name();
        if same_text(n.as_str(), name) {
            return true;
        }
        i = i + 1;
    }
    false
}

/// Adds a pass unless one of its name is there.
fn add_to(passes: &mut Vec<Pass>, entry: Pass)
    ensures
        has_pass(old(passes)@, entry.pass_name()) ==> final(passes)@ == old(passes)@,
        !has_pass(old(passes)@, entry.pass_name()) ==> {
            &&& final(passes)@ == old(passes)@.push(entry)
            &&& final(passes)@.len() == old(passes)@.len() + 1
            &&& final(passes)@.drop_last() == old(passes)@
            &&& final(passes)@.last() == entry
        },
{
    let name = entry.name();
    if !holds(passes, name.as_str()) {
        passes.push(entry);
        assert(passes@.drop_last() =~= old(passes)@);
    }
}

/// Runs passes over one module, in the order in which they were added. No
/// pass is added whose name another of its passes has.
pub struct Optimizer<'a> {
    pub module: &'a mut Module,
    pub optimizations: Vec<Pass>,
}

impl<'a> Optimizer<'a> {
    /// An optimizer for the module, without passes.
    pub fn new(module: &'a mut Module) -> (r: Optimizer<'a>)
        ensures
            *r.module == *old(module),
            *final(module) == *final(r.module),
            r.optimizations@.len() == 0,
    {
        Optimizer { module, optimizations: Vec::new() }
    }

    /// The optimizer with the constant folder added to its passes, unless
    /// a pass of that name is among them.
    pub fn with_constant_folder(self) -> (r: Optimizer<'a>)
        ensures
            *r.module == *old(self.module),
            *final(self.module) == *final(r.module),
            has_pass(self.optimizations@, "ConstantFolder"@) ==> r.optimizations@
                == self.optimizations@,
            !has_pass(self.optimizations@, "ConstantFolder"@) ==> r.optimizations@
                == self.optimizations@.push(Pass::ConstantFolder(ConstantFolder {  })),
    {
        let Optimizer { module, optimizations } = self;
        let mut optimizations = optimizations;
        add_to(&mut optimizations, Pass::ConstantFolder(ConstantFolder::new()));
        Optimizer { module, optimizations }
    }

    /// Adds a pass under the name given, after the passes added before,
    /// unless a pass of that name is there already.
    pub fn add_named(&mut self, name: String, pass: Box<dyn OptimizationPass>) -> (r: &mut Self)
        ensures
            r.module == old(self).module,
            has_pass(old(self).optimizations@, name@) ==> r.optimizations@ == old(self).optimizations@,
            !has_pass(old(self).optimizations@, name@) ==> r.optimizations@ == old(self).optimizations@.push(Pass::Custom { name, pass }),
            *final(self) == *final(r),
    {
        add_to(&mut self.optimizations, Pass::Custom { name, pass });
        self
    }

    /// Adds a pass under the name that it gives itself, after the passes
    /// added before, unless a pass of that name is there already. Nothing
    /// is assumed of the name that the pass gives, but there is one: where
    /// a pass of that name is held the passes are as they were, and else
    /// the pass given comes after them, held under that name. So a pass is
    /// always added where no pass is held yet.
    pub fn add_pass(&mut self, pass: Box<dyn OptimizationPass>) -> (r: &mut Self)
        ensures
            r.module == old(self).module,
            exists|name: String|
                {
                    &&& #[trigger] has_pass(old(self).optimizations@, name@) ==> r.optimizations@
                        == old(self).optimizations@
                    &&& !has_pass(old(self).optimizations@, name@) ==> {
                        &&& r.optimizations@ == old(self).optimizations@.push(
                            Pass::Custom { name, pass },
                        )
                        &&& r.optimizations@.len() == old(self).optimizations@.len() + 1
                        &&& r.optimizations@.drop_last() == old(self).optimizations@
                        &&& r.optimizations@.last().pass_name() == name@
                    }
                },
            *final(self) == *final(r),
    {
        let name = pass.name();
        add_to(&mut self.optimizations, Pass::Custom { name, pass });
        assert(has_pass(old(self).optimizations@, name@) ==> self.optimizations@ == old(self).optimizations@);
        assert(!has_pass(old(self).optimizations@, name@) ==> {
            &&& self.optimizations@ == old(self).optimizations@.push(Pass::Custom { name, pass })
            &&& self.optimizations@.len() == old(self).optimizations@.len() + 1
            &&& self.optimizations@.drop_last() == old(self).optimizations@
            &&& self.optimizations@.last().pass_name() == name@
        });
        self
    }

    /// The passes, in the order in which they run.
    pub fn passes(&self) -> (r: &Vec<Pass>)
        ensures
            r@ == self.optimizations@,
    {
        &self.optimizations
    }

    /// Applies every pass to the module, in order.
    pub fn run(&mut self)
        ensures
            may_result(
                old(self).optimizations@,
                old(self).optimizations@.len(),
                old(self).module@,
                final(self).module@,
            ),
            final(self).optimizations@.len() == old(self).optimizations@.len(),
            *final(final(self).module) == *final(old(self).module),
    {
        let mut i: usize = 0;
        while i < self.optimizations.len()
            invariant
                i <= self.optimizations.len(),
                self.optimizations@.len() == old(self).optimizations@.len(),
                *final(self.module) == *final(old(self).module),
                forall|k: int|
                    i <= k < self.optimizations@.len() ==> self.optimizations@[k] == old(self).optimizations@[k],
                may_result(old(self).optimizations@, i as nat, old(self).module@, self.module@),
            decreases self.optimizations.len() - i,
        {
            let ghost before = self.module@;
            self.optimizations[i].apply(self.module);
            proof {
                let passes = old(self).optimizations@;
                let n = (i + 1) as nat;
                assert(may_result(passes, (n - 1) as nat, old(self).module@, before));
                assert(passes[n - 1].may_make(before, self.module@));
            }
            i = i + 1;
        }
    }
}

/// An optimizer that holds the constant folder alone folds the module.
pub proof fn lemma_folder_alone(passes: Seq<Pass>, start: ModuleModel, end: ModuleModel)
    requires
        passes.len() == 1,
        passes[0] is ConstantFolder,
        may_result(passes, 1, start, end),
    ensures
        end == fold_module(start),
{
    let middle = choose|middle: ModuleModel|
        may_result(passes, 0, start, middle) && #[trigger] passes[0].may_make(middle, end);
}
} // verus!
