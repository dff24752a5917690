//! Instructions and the operations they assign.

use super::entities::{BlockID, Const, ValueID};
use vstd::prelude::*;

verus! {
/// The operation of an assignment.
#[derive(Clone, Copy, Debug, PartialEq, Eq, Structural)]
pub enum Op {
    Const(Const),
    IAdd { left: ValueID, right: ValueID },
    ISub { left: ValueID, right: ValueID },
    IMul { left: ValueID, right: ValueID },
    SDiv { left: ValueID, right: ValueID },
    UDiv { left: ValueID, right: ValueID },
    SRem { left: ValueID, right: ValueID },
    URem { left: ValueID, right: ValueID },
    FAdd { left: ValueID, right: ValueID },
    FSub { left: ValueID, right: ValueID },
    FMul { left: ValueID, right: ValueID },
    FDiv { left: ValueID, right: ValueID },
    FRem { left: ValueID, right: ValueID },
    Lsh(ValueID),
    LRsh(ValueID),
    ARsh(ValueID),
    BNot(ValueID),
    BOr { left: ValueID, right: ValueID },
    BAnd { left: ValueID, right: ValueID },
    INeg(ValueID),
    FNeg(ValueID),
    ICmp { predicate: CmpPred, left: ValueID, right: ValueID },
    FCmp { predicate: CmpPred, left: ValueID, right: ValueID },
}

/// The predicate of a comparison.
#[derive(Clone, Copy, Debug, PartialEq, Eq, Structural)]
pub enum CmpPred {
    Eq,
    Ne,
    SGt,
    SLt,
    SGe,
    SLe,
    UGt,
    ULt,
    UGe,
    ULe,
}

impl CmpPred {
    pub fn eq() -> (r: CmpPred)
        ensures
            r == CmpPred::Eq,
    {
        CmpPred::Eq
    }

    pub fn ne() -> (r: CmpPred)
        ensures
            r == CmpPred::Ne,
    {
        CmpPred::Ne
    }

    pub fn sgt() -> (r: CmpPred)
        ensures
            r == CmpPred::SGt,
    {
        CmpPred::SGt
    }

    pub fn slt() -> (r: CmpPred)
        ensures
            r == CmpPred::SLt,
    {
        CmpPred::SLt
    }

    pub fn sge() -> (r: CmpPred)
        ensures
            r == CmpPred::SGe,
    {
        CmpPred::SGe
    }

    pub fn sle() -> (r: CmpPred)
        ensures
            r == CmpPred::SLe,
    {
        CmpPred::SLe
    }

    pub fn ugt() -> (r: CmpPred)
        ensures
            r == CmpPred::UGt,
    {
        CmpPred::UGt
    }

    pub fn ult() -> (r: CmpPred)
        ensures
            r == CmpPred::ULt,
    {
        CmpPred::ULt
    }

    pub fn uge() -> (r: CmpPred)
        ensures
            r == CmpPred::UGe,
    {
        CmpPred::UGe
    }

    pub fn ule() -> (r: CmpPred)
        ensures
            r == CmpPred::ULe,
    {
        CmpPred::ULe
    }
}

/// A branch target: a block, and the values handed to its parameters.
#[derive(Debug, PartialEq)]
pub struct BlockCall {
    pub block: BlockID,
    pub args: Vec<ValueID>,
}

pub struct BlockCallModel {
    pub block: BlockID,
    pub args: Seq<ValueID>,
}

impl View for BlockCall {
    type V = BlockCallModel;

    open spec fn view(&self) -> BlockCallModel {
        BlockCallModel { block: self.block, args: self.args@ }
    }
}

impl Clone for BlockCall {
    fn clone(&self) -> (r: BlockCall)
        ensures
            r@ == self@,
    {
        BlockCall { block: self.block, args: self.args.clone() }
    }
}

/// An instruction. `Ret`, `Jmp` and `Branch` end a block.
#[derive(Debug, PartialEq)]
pub enum Inst {
    Assign { dest: ValueID, op: Op },
    Ret(ValueID),
    Jmp(BlockCall),
    Branch { condition: ValueID, true_path: BlockCall, false_path: BlockCall },
}

pub enum InstModel {
    Assign { dest: ValueID, op: Op },
    Ret(ValueID),
    Jmp(BlockCallModel),
    Branch { condition: ValueID, true_path: BlockCallModel, false_path: BlockCallModel },
}

impl View for Inst {
    type V = InstModel;

    open spec fn view(&self) -> InstModel {
        match self {
            Inst::Assign { dest, op } => InstModel::Assign { dest: *dest, op: *op },
            Inst::Ret(v) => InstModel::Ret(*v),
            Inst::Jmp(call) => InstModel::Jmp(call@),
            Inst::Branch { condition, true_path, false_path } => InstModel::Branch {
                condition: *condition,
                true_path: true_path@,
                false_path: false_path@,
            },
        }
    }
}

impl Clone for Inst {
    fn clone(&self) -> (r: Inst)
        ensures
            r@ == self@,
    {
        match self {
            Inst::Assign { dest, op } => Inst::Assign { dest: *dest, op: *op },
            Inst::Ret(v) => Inst::Ret(*v),
            Inst::Jmp(call) => Inst::Jmp(call.clone()),
            Inst::Branch { condition, true_path, false_path } => Inst::Branch {
                condition: *condition,
                true_path: true_path.clone(),
                false_path: false_path.clone(),
            },
        }
    }
}
} // verus!
