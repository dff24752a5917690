//! The function builder.

use super::super::super::entities::{Block, BlockID, Function, FunctionModel};
use super::blockbuilder::BlockBuilder;
use crate::text::models;
use vstd::prelude::*;

verus! {
/// A function under construction. `next_id` is the number that the next
/// value defined in the function takes; `next_block_id` that of the next
/// block.
pub struct FunctionBuilder {
    pub function: Function,
    pub next_id: usize,
    pub next_block_id: usize,
}

impl FunctionBuilder {
    /// Begins an empty block, numbered after the blocks begun before it.
    pub fn create_block(&mut self) -> (r: BlockBuilder)
        requires
            old(self).next_block_id < usize::MAX,
        ensures
            r.block.id == BlockID(old(self).next_block_id),
            r.block.insts@.len() == 0,
            r.block.params@.len() == 0,
            final(self).next_block_id == old(self).next_block_id + 1,
            final(self).next_id == old(self).next_id,
            final(self).function == old(self).function,
    {
        let block_id = self.next_block_id;
        self.next_block_id = block_id + 1;
        BlockBuilder {
            block: Block { id: BlockID(block_id), insts: Vec::new(), params: Vec::new() },
        }
    }

    /// Finishes a block: it becomes the function's last.
    pub fn eat_block(&mut self, block_builder: BlockBuilder)
        ensures
            final(self).function@ == (FunctionModel {
                blocks: old(self).function@.blocks.push(block_builder.block@),
                ..old(self).function@
            }),
            final(self).next_id == old(self).next_id,
            final(self).next_block_id == old(self).next_block_id,
    {
        let ghost before = models(self.function.blocks@);
        self.function.blocks.push(block_builder.block);
        assert(models(self.function.blocks@) =~= before.push(block_builder.block@));
    }

    /// The function as built.
    pub fn build(self) -> (r: Function)
        ensures
            r == self.function,
    {
        self.function
    }
}
} // verus!
