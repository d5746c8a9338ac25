//! The chain: an ordered, append-only sequence of blocks that starts with a
//! genesis block.
use vstd::prelude::*;

use crate::block::Block;

verus! {

/// The blocks of a chain, in chain order.
#[derive(Debug, Clone)]
pub struct Blockchain {
    pub chain: Vec<Block>,
}

/// Whether `b` is the genesis block: timestamp 0, payload "Genesis Block",
/// previous hash "0", never hashed nor mined.
pub open spec fn is_genesis(b: Block) -> bool {
    &&& b.timestamp == 0
    &&& b.data@ == "Genesis Block"@
    &&& b.previous_hash@ == "0"@
    &&& b.hash@ == Seq::<char>::empty()
    &&& b.nonce == 0
}

/// The blocks of a chain that held `start` after `added` were appended one
/// by one, in order.
pub open spec fn after_adds(start: Seq<Block>, added: Seq<Block>) -> Seq<Block>
    decreases added.len(),
{
    if added.len() == 0 {
        start
    } else {
        after_adds(start, added.drop_last()).push(added.last())
    }
}

impl Blockchain {
    /// A chain that holds the genesis block alone.
    pub fn new() -> (c: Blockchain)
        ensures
            c.chain@.len() == 1,
            is_genesis(c.chain@[0]),
    {
        let mut blockchain = Blockchain { chain: Vec::new() };
        blockchain.add_block(Block::new(0, "Genesis Block".to_owned(), "0".to_owned()));
        blockchain
    }

    /// Appends `new_block` at the end of the chain, unchecked.
    pub fn add_block(&mut self, new_block: Block)
        ensures
            final(self).chain@ == old(self).chain@.push(new_block),
    {
        self.chain.push(new_block);
    }
}

/// Appending blocks one by one never moves or changes a block already in the
/// chain: the chain grows by one block per append, and the appended blocks
/// follow the old ones in the order they came. A chain that starts from the
/// genesis block alone thus holds one block more than were appended.
pub proof fn lemma_append_only(start: Seq<Block>, added: Seq<Block>)
    ensures
        after_adds(start, added).len() == start.len() + added.len(),
        forall|i: int| 0 <= i < start.len() ==> #[trigger] after_adds(start, added)[i] == start[i],
        forall|j: int|
            0 <= j < added.len() ==> #[trigger] after_adds(start, added)[start.len() + j]
                == added[j],
    decreases added.len(),
{
    if added.len() > 0 {
        lemma_append_only(start, added.drop_last());
        let prev = after_adds(start, added.drop_last());
        assert forall|j: int| 0 <= j < added.len() implies #[trigger] after_adds(start, added)[start.len() + j]
            == added[j] by {
            if j < added.len() - 1 {
                assert(prev[start.len() + j] == added.drop_last()[j]);
            }
        }
    }
}

} // verus!
