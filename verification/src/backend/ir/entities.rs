//! The values, blocks and functions of the intermediate representation.

use super::inst::{Inst, InstModel};
use crate::text::models;
use vstd::prelude::*;

verus! {
/// A constant. Floats are held by their IEEE-754 bit patterns; `Bool` holds
/// 0 or 1.
#[derive(Clone, Copy, Debug, PartialEq, Eq, Structural)]
pub enum Const {
    I8(i8),
    I16(i16),
    I32(i32),
    I64(i64),
    U8(u8),
    U16(u16),
    U32(u32),
    U64(u64),
    F32(u32),
    F64(u64),
    Bool(u8),
    Void,
}

/// The types of the intermediate representation.
#[derive(Clone, Copy, Debug, PartialEq, Eq, Hash, Structural)]
pub enum Type {
    I8,
    I16,
    I32,
    I64,
    U8,
    U16,
    U32,
    U64,
    F32,
    F64,
    Bool,
    Void,
}

/// An SSA value: its number, unique within a function, and its type.
#[derive(Clone, Copy, Debug, PartialEq, Eq, Hash, Structural)]
pub struct ValueID(pub usize, pub Type);

/// A block parameter: its number and its type.
#[derive(Clone, Copy, Debug, PartialEq, Eq, Hash, Structural)]
pub struct ParamID(pub usize, pub Type);

/// The index of a block within its function.
#[derive(Clone, Copy, Debug, PartialEq, Eq, Structural)]
pub struct BlockID(pub usize);

impl From<ParamID> for ValueID {
    fn from(param: ParamID) -> (r: ValueID) {
        ValueID(param.0, param.1)
    }
}

impl vstd::std_specs::convert::FromSpecImpl<ParamID> for ValueID {
    open spec fn obeys_from_spec() -> bool {
        true
    }

    open spec fn from_spec(param: ParamID) -> ValueID {
        ValueID(param.0, param.1)
    }
}

impl From<ValueID> for ParamID {
    fn from(value: ValueID) -> (r: ParamID) {
        ParamID(value.0, value.1)
    }
}

impl vstd::std_specs::convert::FromSpecImpl<ValueID> for ParamID {
    open spec fn obeys_from_spec() -> bool {
        true
    }

    open spec fn from_spec(value: ValueID) -> ParamID {
        ParamID(value.0, value.1)
    }
}

impl ParamID {
    /// The parameter seen as a value.
    pub fn value(self) -> (r: ValueID)
        ensures
            r == ValueID(self.0, self.1),
    {
        ValueID(self.0, self.1)
    }
}

impl ValueID {
    /// The value seen as a block parameter.
    pub fn param(self) -> (r: ParamID)
        ensures
            r == ParamID(self.0, self.1),
    {
        ParamID(self.0, self.1)
    }
}

/// The parameter and return types of a function.
#[derive(Debug, PartialEq)]
pub struct FunctionSignature {
    pub params: Vec<Type>,
    pub return_ty: Type,
}

pub struct SignatureModel {
    pub params: Seq<Type>,
    pub return_ty: Type,
}

impl View for FunctionSignature {
    type V = SignatureModel;

    open spec fn view(&self) -> SignatureModel {
        SignatureModel { params: self.params@, return_ty: self.return_ty }
    }
}

impl Clone for FunctionSignature {
    fn clone(&self) -> (r: FunctionSignature)
        ensures
            r@ == self@,
    {
        FunctionSignature { params: self.params.clone(), return_ty: self.return_ty }
    }
}

impl FunctionSignature {
    /// No parameters, returning `Void`.
    pub fn new() -> (r: FunctionSignature)
        ensures
            r@ == (SignatureModel { params: Seq::empty(), return_ty: Type::Void }),
    {
        FunctionSignature { params: Vec::new(), return_ty: Type::Void }
    }

    /// Replaces the parameter types.
    pub fn with_params(self, params: Vec<Type>) -> (r: FunctionSignature)
        ensures
            r@ == (SignatureModel { params: params@, return_ty: self.return_ty }),
    {
        FunctionSignature { params, return_ty: self.return_ty }
    }

    /// Appends one parameter type.
    pub fn add_param(self, param: Type) -> (r: FunctionSignature)
        ensures
            r@ == (SignatureModel { params: self.params@.push(param), return_ty: self.return_ty }),
    {
        let mut params = self.params;
        params.push(param);
        FunctionSignature { params, return_ty: self.return_ty }
    }

    /// Replaces the return type.
    pub fn with_return_ty(self, return_ty: Type) -> (r: FunctionSignature)
        ensures
            r@ == (SignatureModel { params: self.params@, return_ty }),
    {
        FunctionSignature { params: self.params, return_ty }
    }
}

/// A basic block: its parameters and its instructions, in order.
#[derive(Debug, PartialEq)]
pub struct Block {
    pub id: BlockID,
    pub insts: Vec<Inst>,
    pub params: Vec<ParamID>,
}

pub struct BlockModel {
    pub id: BlockID,
    pub insts: Seq<InstModel>,
    pub params: Seq<ParamID>,
}

impl View for Block {
    type V = BlockModel;

    open spec fn view(&self) -> BlockModel {
        BlockModel { id: self.id, insts: models(self.insts@), params: self.params@ }
    }
}

impl Clone for Block {
    fn clone(&self) -> (r: Block)
        ensures
            r@ == self@,
    {
        let mut insts: Vec<Inst> = Vec::new();
        let mut i: usize = 0;
        while i < self.insts.len()
            invariant
                i <= self.insts.len(),
                insts.len() == i,
                forall|k: int| 0 <= k < i ==> insts[k]@ == self.insts[k]@,
            decreases self.insts.len() - i,
        {
            insts.push(self.insts[i].clone());
            i = i + 1;
        }
        let r = Block { id: self.id, insts, params: self.params.clone() };
        assert(r@.insts =~= self@.insts);
        r
    }
}

/// A function: its name, its signature and its blocks, in order.
#[derive(Debug, PartialEq)]
pub struct Function {
    pub alias: String,
    pub blocks: Vec<Block>,
    pub sig: FunctionSignature,
}

pub struct FunctionModel {
    pub alias: Seq<char>,
    pub blocks: Seq<BlockModel>,
    pub sig: SignatureModel,
}

impl View for Function {
    type V = FunctionModel;

    open spec fn view(&self) -> FunctionModel {
        FunctionModel { alias: self.alias@, blocks: models(self.blocks@), sig: self.sig@ }
    }
}

impl Clone for Function {
    fn clone(&self) -> (r: Function)
        ensures
            r@ == self@,
    {
        let mut blocks: Vec<Block> = Vec::new();
        let mut i: usize = 0;
        while i < self.blocks.len()
            invariant
                i <= self.blocks.len(),
                blocks.len() == i,
                forall|k: int| 0 <= k < i ==> blocks[k]@ == self.blocks[k]@,
            decreases self.blocks.len() - i,
        {
            blocks.push(self.blocks[i].clone());
            i = i + 1;
        }
        let r = Function { alias: self.alias.clone(), blocks, sig: self.sig.clone() };
        assert(r@.blocks =~= self@.blocks);
        r
    }
}
} // verus!
