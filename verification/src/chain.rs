//! The ledger: hashing utilities, wallets, transactions and blocks, and the
//! append-only chain that ties them together.

use vstd::prelude::*;

pub mod block;
pub mod transaction;
pub mod utils;
pub mod wallet;

use block::{spec_is_genesis, Block};

verus! {

/// The append-only sequence of blocks a node owns. Reading the last hash
/// or index of an empty chain first appends the hard-coded genesis block:
/// those reads are side-effecting, and their contracts say so.
pub struct Chain {
    blocks: Vec<Block>,
}

impl Chain {
    /// The blocks, oldest first.
    pub closed spec fn spec_blocks(&self) -> Seq<Block> {
        self.blocks@
    }

    /// An empty chain.
    pub fn new() -> (r: Self)
        ensures
            r.spec_blocks().len() == 0,
    {
        Self { blocks: Vec::new() }
    }

    /// Appends `block` unconditionally: by design this validates neither
    /// the `previous_hash` linkage nor the proof of work.
    pub fn add_block(&mut self, block: Block)
        ensures
            final(self).spec_blocks() == old(self).spec_blocks().push(block),
    {
        self.blocks.push(block);
    }

    /// Appends a fresh genesis block and returns a genesis block of its
    /// own: both satisfy the genesis shape, though their clock-read
    /// timestamps may differ.
    pub fn create_genesis_block(&mut self) -> (r: Block)
        ensures
            final(self).spec_blocks().len() == old(self).spec_blocks().len() + 1,
            final(self).spec_blocks().subrange(0, old(self).spec_blocks().len() as int) == old(
                self,
            ).spec_blocks(),
            spec_is_genesis(final(self).spec_blocks().last()),
            spec_is_genesis(r),
    {
        let genesis = Block::genesis_block();
        let kept = Block::genesis_block();
        self.add_block(kept);
        proof {
            assert(final(self).spec_blocks().subrange(0, old(self).spec_blocks().len() as int)
                =~= old(self).spec_blocks());
        }
        genesis
    }

    /// The hash of the last block. On an empty chain this first creates
    /// the genesis block, growing the chain to exactly one block; reading
    /// twice therefore leaves a single block in place.
    pub fn get_last_hash(&mut self) -> (r: String)
        ensures
            old(self).spec_blocks().len() > 0 ==> *final(self) == *old(self) && r@ == old(
                self,
            ).spec_blocks().last().spec_hash(),
            old(self).spec_blocks().len() == 0 ==> final(self).spec_blocks().len() == 1
                && spec_is_genesis(final(self).spec_blocks()[0]),
            final(self).spec_blocks().len() > 0,
            r@ == final(self).spec_blocks().last().spec_hash(),
    {
        if self.blocks.len() == 0 {
            let genesis_block = self.create_genesis_block();
            let last = &self.blocks[self.blocks.len() - 1];
            last.get_hash()
        } else {
            let last = &self.blocks[self.blocks.len() - 1];
            last.get_hash()
        }
    }

    /// The index of the last block. On an empty chain this first creates
    /// the genesis block, growing the chain to exactly one block; reading
    /// twice therefore leaves a single block in place.
    pub fn get_last_index(&mut self) -> (r: i64)
        ensures
            old(self).spec_blocks().len() > 0 ==> *final(self) == *old(self) && r == old(
                self,
            ).spec_blocks().last().spec_index(),
            old(self).spec_blocks().len() == 0 ==> final(self).spec_blocks().len() == 1
                && spec_is_genesis(final(self).spec_blocks()[0]),
            final(self).spec_blocks().len() > 0,
            r == final(self).spec_blocks().last().spec_index(),
    {
        if self.blocks.len() == 0 {
            let genesis_block = self.create_genesis_block();
            let last = &self.blocks[self.blocks.len() - 1];
            last.get_index()
        } else {
            let last = &self.blocks[self.blocks.len() - 1];
            last.get_index()
        }
    }
}

} // verus!
