//! Constant folding: one linear scan per block that replaces operations on
//! known constants by their value, then drops the block's own constant
//! assignments.

use super::super::codegen::context::{Module, ModuleModel};
use super::super::entities::{Block, BlockModel, Const, Function, FunctionModel, ValueID};
use super::super::inst::{Inst, InstModel, Op};
use super::folding::{
    arithmetic_shift_right, bit_and, bit_not, bit_or, float_neg, fold_add, fold_arsh, fold_band,
    no_floats, FloatOp, FloatValues,
    fold_bnot, fold_bor, fold_fneg, fold_ineg, fold_lrsh, fold_lsh, fold_mul, fold_sdiv, fold_srem,
    fold_sub, fold_udiv, fold_urem, int_add, int_mul, int_neg, int_sub, logical_shift_right,
    shift_left, signed_div, signed_rem, unsigned_div, unsigned_rem,
};
use crate::text::models;
use std::collections::HashMap;
use vstd::prelude::*;

verus! {
broadcast use vstd::std_specs::hash::group_hash_axioms;

/// The constants known so far, by value number.
pub type Known = Map<usize, Const>;

/// The constant that a value is known to hold, if any.
pub open spec fn known_value(known: Known, v: ValueID) -> Option<Const> {
    if known.contains_key(v.0) {
        Some(known[v.0])
    } else {
        None
    }
}

/// Both operands of a binary operation, where both are known.
pub open spec fn known_pair(known: Known, left: ValueID, right: ValueID) -> Option<(Const, Const)> {
    match (known_value(known, left), known_value(known, right)) {
        (Some(l), Some(r)) => Some((l, r)),
        _ => None,
    }
}

/// The constant that an operation folds to: `None` where an operand is not
/// known, the operand types do not suit the operation, or the operation is
/// not a foldable one. Float arithmetic on known operands is worth what
/// `floats` says. Comparisons and constants themselves are never folded.
pub open spec fn fold_op(op: Op, known: Known, floats: FloatValues) -> Option<Const> {
    match op {
        Op::FAdd { left, right } => match known_pair(known, left, right) {
            Some((l, r)) => floats(FloatOp::Add, l, r),
            None => None,
        },
        Op::FSub { left, right } => match known_pair(known, left, right) {
            Some((l, r)) => floats(FloatOp::Sub, l, r),
            None => None,
        },
        Op::FMul { left, right } => match known_pair(known, left, right) {
            Some((l, r)) => floats(FloatOp::Mul, l, r),
            None => None,
        },
        Op::FDiv { left, right } => match known_pair(known, left, right) {
            Some((l, r)) => floats(FloatOp::Div, l, r),
            None => None,
        },
        Op::FRem { left, right } => match known_pair(known, left, right) {
            Some((l, r)) => floats(FloatOp::Rem, l, r),
            None => None,
        },
        Op::IAdd { left, right } => match known_pair(known, left, right) {
            Some((l, r)) => int_add(l, r),
            None => None,
        },
        Op::ISub { left, right } => match known_pair(known, left, right) {
            Some((l, r)) => int_sub(l, r),
            None => None,
        },
        Op::IMul { left, right } => match known_pair(known, left, right) {
            Some((l, r)) => int_mul(l, r),
            None => None,
        },
        Op::SDiv { left, right } => match known_pair(known, left, right) {
            Some((l, r)) => signed_div(l, r),
            None => None,
        },
        Op::UDiv { left, right } => match known_pair(known, left, right) {
            Some((l, r)) => unsigned_div(l, r),
            None => None,
        },
        Op::SRem { left, right } => match known_pair(known, left, right) {
            Some((l, r)) => signed_rem(l, r),
            None => None,
        },
        Op::URem { left, right } => match known_pair(known, left, right) {
            Some((l, r)) => unsigned_rem(l, r),
            None => None,
        },
        Op::BOr { left, right } => match known_pair(known, left, right) {
            Some((l, r)) => bit_or(l, r),
            None => None,
        },
        Op::BAnd { left, right } => match known_pair(known, left, right) {
            Some((l, r)) => bit_and(l, r),
            None => None,
        },
        Op::Lsh(v) => match known_value(known, v) {
            Some(c) => shift_left(c),
            None => None,
        },
        Op::LRsh(v) => match known_value(known, v) {
            Some(c) => logical_shift_right(c),
            None => None,
        },
        Op::ARsh(v) => match known_value(known, v) {
            Some(c) => arithmetic_shift_right(c),
            None => None,
        },
        Op::BNot(v) => match known_value(known, v) {
            Some(c) => bit_not(c),
            None => None,
        },
        Op::INeg(v) => match known_value(known, v) {
            Some(c) => int_neg(c),
            None => None,
        },
        Op::FNeg(v) => match known_value(known, v) {
            Some(c) => float_neg(c),
            None => None,
        },
        _ => None,
    }
}

/// Whether an instruction assigns a constant.
pub open spec fn is_const_assign(inst: InstModel) -> bool {
    inst matches InstModel::Assign { op: Op::Const(_), .. }
}

/// The constants that a block's own constant assignments give, a later
/// assignment to a number replacing an earlier one.
pub open spec fn seeded(insts: Seq<InstModel>) -> Known
    decreases insts.len(),
{
    if insts.len() == 0 {
        Map::empty()
    } else {
        let before = seeded(insts.drop_last());
        match insts.last() {
            InstModel::Assign { dest, op: Op::Const(c) } => before.insert(dest.0, c),
            _ => before,
        }
    }
}

/// One step of the scan: the instruction as folding leaves it, and what is
/// known after it.
pub open spec fn fold_inst(inst: InstModel, known: Known, floats: FloatValues) -> (
    InstModel,
    Known,
) {
    match inst {
        InstModel::Assign { dest, op: Op::Const(c) } => (inst, known.insert(dest.0, c)),
        InstModel::Assign { dest, op } => match fold_op(op, known, floats) {
            Some(c) => (InstModel::Assign { dest, op: Op::Const(c) }, known.insert(dest.0, c)),
            None => (inst, known),
        },
        _ => (inst, known),
    }
}

/// What is known when the scan reaches instruction `n`: the block's seeded
/// constants and the results folded before it.
pub open spec fn known_at(insts: Seq<InstModel>, n: nat, floats: FloatValues) -> Known
    decreases n,
{
    if n == 0 {
        seeded(insts)
    } else {
        fold_inst(insts[n - 1], known_at(insts, (n - 1) as nat, floats), floats).1
    }
}

/// The instructions that survive among the first `n`: each one that is not
/// a constant assignment of the block, as the scan leaves it.
pub open spec fn kept(insts: Seq<InstModel>, n: nat, floats: FloatValues) -> Seq<InstModel>
    decreases n,
{
    if n == 0 {
        Seq::empty()
    } else {
        let before = kept(insts, (n - 1) as nat, floats);
        let inst = insts[n - 1];
        if is_const_assign(inst) {
            before
        } else {
            before.push(fold_inst(inst, known_at(insts, (n - 1) as nat, floats), floats).0)
        }
    }
}

/// A block's instructions after folding.
pub open spec fn fold_insts(insts: Seq<InstModel>, floats: FloatValues) -> Seq<InstModel> {
    kept(insts, insts.len(), floats)
}

pub open spec fn fold_block(b: BlockModel, floats: FloatValues) -> BlockModel {
    BlockModel { id: b.id, insts: fold_insts(b.insts, floats), params: b.params }
}

pub open spec fn fold_function(f: FunctionModel, floats: FloatValues) -> FunctionModel {
    FunctionModel {
        alias: f.alias,
        blocks: Seq::new(f.blocks.len(), |i: int| fold_block(f.blocks[i], floats)),
        sig: f.sig,
    }
}

/// A module after folding with float operations worth what `floats` says:
/// every block of every function folded by itself.
pub open spec fn fold_module_with(m: ModuleModel, floats: FloatValues) -> ModuleModel {
    ModuleModel {
        name: m.name,
        functions: Seq::new(m.functions.len(), |i: int| fold_function(m.functions[i], floats)),
    }
}

/// A module after folding that leaves float arithmetic alone.
pub open spec fn fold_module(m: ModuleModel) -> ModuleModel {
    fold_module_with(m, no_floats())
}

/// Whether `values` says what the function `f` returns: whatever `f` may
/// return on some arguments is the value that `values` gives them.
pub open spec fn computes<F: Fn(FloatOp, Const, Const) -> Option<Const>>(
    f: F,
    values: FloatValues,
) -> bool {
    forall|op: FloatOp, l: Const, r: Const, out: Option<Const>|
        #[trigger] f.ensures((op, l, r), out) ==> out == values(op, l, r)
}

fn lookup(known: &HashMap<usize, Const>, v: &ValueID) -> (r: Option<Const>)
    ensures
        r == known_value(known@, *v),
{
    match known.get(&v.0) {
        Some(c) => Some(*c),
        None => None,
    }
}

fn lookup_pair(known: &HashMap<usize, Const>, left: &ValueID, right: &ValueID) -> (r: Option<
    (Const, Const),
>)
    ensures
        r == known_pair(known@, *left, *right),
{
    match lookup(known, left) {
        Some(l) => match lookup(known, right) {
            Some(r) => Some((l, r)),
            None => None,
        },
        None => None,
    }
}

fn fold_float<F: Fn(FloatOp, Const, Const) -> Option<Const>>(
    op: FloatOp,
    known: &HashMap<usize, Const>,
    left: &ValueID,
    right: &ValueID,
    floats: &F,
) -> (r: Option<Const>)
    requires
        forall|op: FloatOp, l: Const, r: Const| floats.requires((op, l, r)),
    ensures
        forall|values: FloatValues| #[trigger]
            computes(*floats, values) ==> r == match known_pair(known@, *left, *right) {
                Some((l, r)) => values(op, l, r),
                None => None,
            },
{
    match lookup_pair(known, left, right) {
        Some((l, r)) => floats(op, l, r),
        None => None,
    }
}

fn fold_operation<F: Fn(FloatOp, Const, Const) -> Option<Const>>(
    op: &Op,
    known: &HashMap<usize, Const>,
    floats: &F,
) -> (r: Option<Const>)
    requires
        forall|op: FloatOp, l: Const, r: Const| floats.requires((op, l, r)),
    ensures
        forall|values: FloatValues| #[trigger]
            computes(*floats, values) ==> r == fold_op(*op, known@, values),
{
    match op {
        Op::IAdd { left, right } => match lookup_pair(known, left, right) {
            Some((l, r)) => fold_add(l, r),
            None => None,
        },
        Op::ISub { left, right } => match lookup_pair(known, left, right) {
            Some((l, r)) => fold_sub(l, r),
            None => None,
        },
        Op::IMul { left, right } => match lookup_pair(known, left, right) {
            Some((l, r)) => fold_mul(l, r),
            None => None,
        },
        Op::SDiv { left, right } => match lookup_pair(known, left, right) {
            Some((l, r)) => fold_sdiv(l, r),
            None => None,
        },
        Op::UDiv { left, right } => match lookup_pair(known, left, right) {
            Some((l, r)) => fold_udiv(l, r),
            None => None,
        },
        Op::SRem { left, right } => match lookup_pair(known, left, right) {
            Some((l, r)) => fold_srem(l, r),
            None => None,
        },
        Op::URem { left, right } => match lookup_pair(known, left, right) {
            Some((l, r)) => fold_urem(l, r),
            None => None,
        },
        Op::FAdd { left, right } => fold_float(FloatOp::Add, known, left, right, floats),
        Op::FSub { left, right } => fold_float(FloatOp::Sub, known, left, right, floats),
        Op::FMul { left, right } => fold_float(FloatOp::Mul, known, left, right, floats),
        Op::FDiv { left, right } => fold_float(FloatOp::Div, known, left, right, floats),
        Op::FRem { left, right } => fold_float(FloatOp::Rem, known, left, right, floats),
        Op::BOr { left, right } => match lookup_pair(known, left, right) {
            Some((l, r)) => fold_bor(l, r),
            None => None,
        },
        Op::BAnd { left, right } => match lookup_pair(known, left, right) {
            Some((l, r)) => fold_band(l, r),
            None => None,
        },
        Op::Lsh(v) => match lookup(known, v) {
            Some(c) => fold_lsh(c),
            None => None,
        },
        Op::LRsh(v) => match lookup(known, v) {
            Some(c) => fold_lrsh(c),
            None => None,
        },
        Op::ARsh(v) => match lookup(known, v) {
            Some(c) => fold_arsh(c),
            None => None,
        },
        Op::BNot(v) => match lookup(known, v) {
            Some(c) => fold_bnot(c),
            None => None,
        },
        Op::INeg(v) => match lookup(known, v) {
            Some(c) => fold_ineg(c),
            None => None,
        },
        Op::FNeg(v) => match lookup(known, v) {
            Some(c) => fold_fneg(c),
            None => None,
        },
        _ => None,
    }
}

/// Folds the instructions of one block.
fn fold_block_insts<F: Fn(FloatOp, Const, Const) -> Option<Const>>(
    insts: &Vec<Inst>,
    floats: &F,
) -> (out: Vec<Inst>)
    requires
        forall|op: FloatOp, l: Const, r: Const| floats.requires((op, l, r)),
    ensures
        forall|values: FloatValues| #[trigger]
            computes(*floats, values) ==> models(out@) == fold_insts(models(insts@), values),
{
    let ghost m = models(insts@);
    let mut known: HashMap<usize, Const> = HashMap::new();
    let mut i: usize = 0;
    while i < insts.len()
        invariant
            i <= insts.len(),
            m == models(insts@),
            known@ == seeded(m.take(i as int)),
        decreases insts.len() - i,
    {
        proof {
            assert(m.take(i as int + 1).drop_last() =~= m.take(i as int));
        }
        match &insts[i] {
            Inst::Assign { dest, op: Op::Const(c) } => {
                known.insert(dest.0, *c);
            },
            _ => {},
        }
        i = i + 1;
    }
    proof {
        assert(m.take(insts.len() as int) =~= m);
    }
    let mut out: Vec<Inst> = Vec::new();
    let mut i: usize = 0;
    while i < insts.len()
        invariant
            i <= insts.len(),
            m == models(insts@),
            forall|op: FloatOp, l: Const, r: Const| floats.requires((op, l, r)),
            forall|values: FloatValues| #[trigger]
                computes(*floats, values) ==> known@ == known_at(m, i as nat, values) && models(out@) == kept(m, i as nat, values),
        decreases insts.len() - i,
    {
        match &insts[i] {
            Inst::Assign { dest, op: Op::Const(c) } => {
                known.insert(dest.0, *c);
            },
            Inst::Assign { dest, op } => {
                match fold_operation(op, &known, floats) {
                    Some(c) => {
                        known.insert(dest.0, c);
                        out.push(Inst::Assign { dest: *dest, op: Op::Const(c) });
                    },
                    None => {
                        out.push(insts[i].clone());
                    },
                }
            },
            _ => {
                out.push(insts[i].clone());
            },
        }
        i = i + 1;
    }
    out
}

fn fold_one_block<F: Fn(FloatOp, Const, Const) -> Option<Const>>(block: &Block, floats: &F) -> (r:
    Block)
    requires
        forall|op: FloatOp, l: Const, r: Const| floats.requires((op, l, r)),
    ensures
        forall|values: FloatValues| #[trigger]
            computes(*floats, values) ==> r@ == fold_block(block@, values),
{
    Block {
        id: block.id,
        insts: fold_block_insts(&block.insts, floats),
        params: block.params.clone(),
    }
}

fn fold_one_function<F: Fn(FloatOp, Const, Const) -> Option<Const>>(
    function: &Function,
    floats: &F,
) -> (r: Function)
    requires
        forall|op: FloatOp, l: Const, r: Const| floats.requires((op, l, r)),
    ensures
        forall|values: FloatValues| #[trigger]
            computes(*floats, values) ==> r@ == fold_function(function@, values),
{
    let mut blocks: Vec<Block> = Vec::new();
    let mut i: usize = 0;
    while i < function.blocks.len()
        invariant
            i <= function.blocks.len(),
            blocks.len() == i,
            forall|op: FloatOp, l: Const, r: Const| floats.requires((op, l, r)),
            forall|values: FloatValues, k: int| #[trigger]
                computes(*floats, values) && 0 <= k < i ==> (#[trigger] blocks[k])@ == fold_block(
                    function.blocks[k]@,
                    values,
                ),
        decreases function.blocks.len() - i,
    {
        blocks.push(fold_one_block(&function.blocks[i], floats));
        i = i + 1;
    }
    let r = Function { alias: function.alias.clone(), blocks, sig: function.sig.clone() };
    assert forall|values: FloatValues| #[trigger] computes(*floats, values) implies r@
        == fold_function(function@, values) by {
        assert(r@.blocks =~= fold_function(function@, values).blocks);
    }
    r
}

/// The constant-folding pass.
pub struct ConstantFolder {}

impl ConstantFolder {
    /// The folder. It holds nothing: what it knows, it knows for the
    /// length of one block.
    pub fn new() -> (r: ConstantFolder)
        ensures
            r == (ConstantFolder {  }),
    {
        ConstantFolder {  }
    }

    /// Folds every block of every function of the module. Float
    /// arithmetic is left as it is.
    pub fn run(&mut self, module: &mut Module)
        ensures
            final(module)@ == fold_module(old(module)@),
    {
        let none = |op: FloatOp, l: Const, r: Const| -> (out: Option<Const>)
            ensures
                out == no_floats()(op, l, r),
            { None };
        assert(computes(none, no_floats()));
        self.run_with(module, none);
    }

    /// Folds every block of every function of the module, asking `floats`
    /// what a float operation on two constants is worth: the constant to
    /// fold it to, or `None` to leave it. Constants are handed over as
    /// they are, floats by their bit patterns.
    pub fn run_with<F: Fn(FloatOp, Const, Const) -> Option<Const>>(
        &mut self,
        module: &mut Module,
        floats: F,
    )
        requires
            forall|op: FloatOp, l: Const, r: Const| floats.requires((op, l, r)),
        ensures
            forall|values: FloatValues| #[trigger]
                computes(floats, values) ==> final(module)@ == fold_module_with(
                    old(module)@,
                    values,
                ),
    {
        let mut functions: Vec<Function> = Vec::new();
        let mut i: usize = 0;
        while i < module.functions.len()
            invariant
                i <= module.functions.len(),
                functions.len() == i,
                *module == *old(module),
                forall|op: FloatOp, l: Const, r: Const| floats.requires((op, l, r)),
                forall|values: FloatValues, k: int| #[trigger]
                    computes(floats, values) && 0 <= k < i ==> (#[trigger] functions[k])@
                        == fold_function(old(module).functions[k]@, values),
            decreases module.functions.len() - i,
        {
            functions.push(fold_one_function(&module.functions[i], &floats));
            i = i + 1;
        }
        module.functions = functions;
        assert forall|values: FloatValues| #[trigger] computes(floats, values) implies module@
            == fold_module_with(old(module)@, values) by {
            assert(module@.functions =~= fold_module_with(old(module)@, values).functions);
        }
    }
}

impl super::OptimizationPass for ConstantFolder {
    fn name(&self) -> (r: String)
        ensures
            r@ == "ConstantFolder"@,
    {
        "ConstantFolder".to_owned()
    }

    fn apply(&mut self, module: &mut Module)
        ensures
            final(module)@ == fold_module(old(module)@),
    {
        self.run(module);
    }
}

/// The values that an operation reads.
pub open spec fn op_values(op: Op) -> Set<ValueID> {
    match op {
        Op::Const(_) => Set::empty(),
        Op::IAdd { left, right } => set![left, right],
        Op::ISub { left, right } => set![left, right],
        Op::IMul { left, right } => set![left, right],
        Op::SDiv { left, right } => set![left, right],
        Op::UDiv { left, right } => set![left, right],
        Op::SRem { left, right } => set![left, right],
        Op::URem { left, right } => set![left, right],
        Op::FAdd { left, right } => set![left, right],
        Op::FSub { left, right } => set![left, right],
        Op::FMul { left, right } => set![left, right],
        Op::FDiv { left, right } => set![left, right],
        Op::FRem { left, right } => set![left, right],
        Op::Lsh(v) => set![v],
        Op::LRsh(v) => set![v],
        Op::ARsh(v) => set![v],
        Op::BNot(v) => set![v],
        Op::BOr { left, right } => set![left, right],
        Op::BAnd { left, right } => set![left, right],
        Op::INeg(v) => set![v],
        Op::FNeg(v) => set![v],
        Op::ICmp { predicate, left, right } => set![left, right],
        Op::FCmp { predicate, left, right } => set![left, right],
    }
}

/// The values that an instruction names: the one it defines and those it reads.
pub open spec fn inst_values(inst: InstModel) -> Set<ValueID> {
    match inst {
        InstModel::Assign { dest, op } => op_values(op).insert(dest),
        InstModel::Ret(v) => set![v],
        InstModel::Jmp(call) => call.args.to_set(),
        InstModel::Branch { condition, true_path, false_path } => (true_path.args.to_set()
            + false_path.args.to_set()).insert(condition),
    }
}

/// Whether some instruction of the module names the value.
pub open spec fn module_names(m: ModuleModel, v: ValueID) -> bool {
    exists|f: int, b: int, i: int|
        0 <= f < m.functions.len() && 0 <= b < m.functions[f].blocks.len() && 0 <= i
            < m.functions[f].blocks[b].insts.len() && #[trigger] inst_values(
            m.functions[f].blocks[b].insts[i],
        ).contains(v)
}

/// Whether no instruction of the function assigns a constant.
pub open spec fn function_has_no_constants(f: FunctionModel) -> bool {
    forall|b: int, i: int|
        0 <= b < f.blocks.len() && 0 <= i < f.blocks[b].insts.len() ==> !is_const_assign(
            #[trigger] f.blocks[b].insts[i],
        )
}

/// Whether no instruction of the module assigns a constant.
pub open spec fn module_has_no_constants(m: ModuleModel) -> bool {
    forall|f: int| 0 <= f < m.functions.len() ==> function_has_no_constants(#[trigger] m.functions[f])
}

proof fn lemma_scan_without_constants(insts: Seq<InstModel>, n: nat)
    requires
        n <= insts.len(),
        forall|i: int| 0 <= i < insts.len() ==> !is_const_assign(#[trigger] insts[i]),
    ensures
        seeded(insts.take(n as int)) == Map::<usize, Const>::empty(),
        n == insts.len() ==> forall|floats: FloatValues| #[trigger]
            known_at(insts, 0, floats) == Map::<usize, Const>::empty(),
    decreases n,
{
    if n > 0 {
        lemma_scan_without_constants(insts, (n - 1) as nat);
        assert(insts.take(n as int).drop_last() =~= insts.take(n as int - 1));
    }
}

proof fn lemma_kept_without_constants(insts: Seq<InstModel>, n: nat, floats: FloatValues)
    requires
        n <= insts.len(),
        forall|i: int| 0 <= i < insts.len() ==> !is_const_assign(#[trigger] insts[i]),
    ensures
        known_at(insts, n, floats) == Map::<usize, Const>::empty(),
        kept(insts, n, floats) == insts.take(n as int),
    decreases n,
{
    if n == 0 {
        lemma_scan_without_constants(insts, insts.len());
    } else {
        lemma_kept_without_constants(insts, (n - 1) as nat, floats);
        let inst = insts[n - 1];
        match inst {
            InstModel::Assign { dest, op } => {},
            _ => {},
        }
    }
}

/// Folding a function in which nothing assigns a constant leaves it as it
/// is, whatever float operations are worth.
pub proof fn lemma_fold_without_constants(f: FunctionModel, floats: FloatValues)
    requires
        function_has_no_constants(f),
    ensures
        fold_function(f, floats) == f,
{
    assert forall|b: int| 0 <= b < f.blocks.len() implies fold_block(f.blocks[b], floats)
        == f.blocks[b] by {
        let insts = f.blocks[b].insts;
        lemma_kept_without_constants(insts, insts.len(), floats);
        assert(insts.take(insts.len() as int) =~= insts);
    }
    assert(fold_function(f, floats).blocks =~= f.blocks);
}

/// Folding twice gives what folding once gives, wherever the first folding
/// left no constant assignment behind. (A folded result is itself a constant
/// assignment, which a second folding drops: see
/// `lemma_fold_again_differs`.)
pub proof fn lemma_fold_idempotent(m: ModuleModel, floats: FloatValues)
    requires
        module_has_no_constants(fold_module_with(m, floats)),
    ensures
        fold_module_with(fold_module_with(m, floats), floats) == fold_module_with(m, floats),
{
    let once = fold_module_with(m, floats);
    assert forall|f: int| 0 <= f < once.functions.len() implies fold_function(
        once.functions[f],
        floats,
    ) == once.functions[f] by {
        lemma_fold_without_constants(once.functions[f], floats);
    }
    assert(fold_module_with(once, floats).functions =~= once.functions);
}

proof fn lemma_kept_is_shorter(insts: Seq<InstModel>, n: nat, i: int, floats: FloatValues)
    requires
        n <= insts.len(),
    ensures
        kept(insts, n, floats).len() <= n,
        0 <= i < n && is_const_assign(insts[i]) ==> kept(insts, n, floats).len() < n,
    decreases n,
{
    if n > 0 {
        lemma_kept_is_shorter(insts, (n - 1) as nat, i, floats);
    }
}

/// Where a folding leaves a constant assignment behind, folding once more
/// gives another module: the second folding drops that assignment.
pub proof fn lemma_fold_again_differs(m: ModuleModel, floats: FloatValues)
    requires
        !module_has_no_constants(fold_module_with(m, floats)),
    ensures
        fold_module_with(fold_module_with(m, floats), floats) != fold_module_with(m, floats),
{
    let once = fold_module_with(m, floats);
    let f = choose|f: int|
        0 <= f < once.functions.len() && !function_has_no_constants(#[trigger] once.functions[f]);
    let function = once.functions[f];
    let (b, i) = choose|b: int, i: int|
        0 <= b < function.blocks.len() && 0 <= i < function.blocks[b].insts.len()
            && is_const_assign(#[trigger] function.blocks[b].insts[i]);
    let insts = function.blocks[b].insts;
    lemma_kept_is_shorter(insts, insts.len(), i, floats);
    let twice = fold_module_with(once, floats);
}

proof fn lemma_kept_comes_from_input(insts: Seq<InstModel>, n: nat, j: int, floats: FloatValues)
    requires
        n <= insts.len(),
        0 <= j < kept(insts, n, floats).len(),
    ensures
        exists|i: int|
            0 <= i < n && inst_values(kept(insts, n, floats)[j]).subset_of(
                #[trigger] inst_values(insts[i]),
            ),
    decreases n,
{
    if n > 0 {
        let before = kept(insts, (n - 1) as nat, floats);
        if j < before.len() {
            lemma_kept_comes_from_input(insts, (n - 1) as nat, j, floats);
            let i = choose|i: int|
                0 <= i < n - 1 && inst_values(before[j]).subset_of(#[trigger] inst_values(insts[i]));
        } else {
            let inst = insts[n - 1];
            let folded = fold_inst(inst, known_at(insts, (n - 1) as nat, floats), floats).0;
            assert(inst_values(folded).subset_of(inst_values(inst)));
        }
    }
}

/// Folding introduces no value: every value that the folded module names is
/// named by the module it was folded from.
pub proof fn lemma_fold_names_no_new_value(m: ModuleModel, v: ValueID, floats: FloatValues)
    requires
        module_names(fold_module_with(m, floats), v),
    ensures
        module_names(m, v),
{
    let once = fold_module_with(m, floats);
    let (f, b, j) = choose|f: int, b: int, j: int|
        0 <= f < once.functions.len() && 0 <= b < once.functions[f].blocks.len() && 0 <= j
            < once.functions[f].blocks[b].insts.len() && #[trigger] inst_values(
            once.functions[f].blocks[b].insts[j],
        ).contains(v);
    let insts = m.functions[f].blocks[b].insts;
    lemma_kept_comes_from_input(insts, insts.len(), j, floats);
    let i = choose|i: int|
        0 <= i < insts.len() && inst_values(kept(insts, insts.len(), floats)[j]).subset_of(
            #[trigger] inst_values(insts[i]),
        );
}
} // verus!
