//! The block builder.

use super::super::super::entities::{Block, BlockID, ParamID, Type, ValueID};
use super::super::super::inst::{BlockCall, BlockCallModel};
use super::functionbuilder::FunctionBuilder;
use super::instbuilder::InstBuilder;
use vstd::prelude::*;

verus! {
/// A block under construction.
pub struct BlockBuilder {
    pub block: Block,
}

impl BlockBuilder {
    /// A builder that appends to this block and numbers values from the
    /// function's counter.
    pub fn ins<'a>(&'a mut self, function: &'a mut FunctionBuilder) -> (r: InstBuilder<'a>)
        ensures
            *r.block == old(self).block.insts,
            *r.next_id == old(function).next_id,
            final(self).block.insts == *final(r.block),
            final(self).block.id == old(self).block.id,
            final(self).block.params == old(self).block.params,
            final(function).next_id == *final(r.next_id),
            final(function).next_block_id == old(function).next_block_id,
            final(function).function == old(function).function,
    {
        InstBuilder { block: &mut self.block.insts, next_id: &mut function.next_id }
    }

    /// The block's number.
    pub fn id(&self) -> (r: BlockID)
        ensures
            r == self.block.id,
    {
        self.block.id
    }

    /// Gives the block one more parameter, numbered from the function's
    /// counter.
    pub fn with_param(self, function: &mut FunctionBuilder, param: Type) -> (r: BlockBuilder)
        requires
            old(function).next_id < usize::MAX,
        ensures
            r.block.params@ == self.block.params@.push(ParamID(old(function).next_id, param)),
            r.block.id == self.block.id,
            r.block.insts == self.block.insts,
            final(function).next_id == old(function).next_id + 1,
            final(function).next_block_id == old(function).next_block_id,
            final(function).function == old(function).function,
    {
        let mut block = self.block;
        block.params.push(ParamID(function.next_id, param));
        function.next_id = function.next_id + 1;
        BlockBuilder { block }
    }

    /// A call of this block with the arguments given.
    pub fn call(&self, args: &[ValueID]) -> (r: BlockCall)
        ensures
            r@ == (BlockCallModel { block: self.block.id, args: args@ }),
    {
        BlockCall { block: self.block.id, args: vstd::slice::slice_to_vec(args) }
    }

    /// The block's parameter at `index`.
    pub fn get_param(&self, index: usize) -> (r: ParamID)
        requires
            index < self.block.params@.len(),
        ensures
            r == self.block.params@[index as int],
    {
        self.block.params[index]
    }
}
} // verus!
