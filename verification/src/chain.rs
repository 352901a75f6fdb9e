//! Chain state under a fixed lock order.
//!
//! The chain keeps two indexes — hash to number, and number to block.
//! Every operation touches them in the same order, numbers before blocks,
//! so two operations can never wait on each other's index.

use vstd::prelude::*;
use std::collections::HashMap;

verus! {

broadcast use vstd::std_specs::hash::group_hash_axioms;

/// A block of the chain.
#[derive(Clone, Copy, Debug, PartialEq, Eq, Structural)]
pub struct Block {
    /// The block's height.
    pub number: u64,
    /// The block's hash.
    pub hash: u64,
    /// Opaque payload identifier.
    pub data: u64,
}

/// The two chain indexes.
pub struct ChainState {
    /// Block number by hash.
    pub numbers: HashMap<u64, u64>,
    /// Block by number.
    pub blocks: HashMap<u64, Block>,
}

impl ChainState {
    /// The number recorded for a hash.
    pub open spec fn spec_number(self, hash: u64) -> Option<u64> {
        if self.numbers@.dom().contains(hash) {
            Some(self.numbers@[hash])
        } else {
            None
        }
    }

    /// The block recorded at a number.
    pub open spec fn spec_block(self, number: u64) -> Option<Block> {
        if self.blocks@.dom().contains(number) {
            Some(self.blocks@[number])
        } else {
            None
        }
    }

    /// Build a chain seeded with its first five blocks, where block `i`
    /// has hash `i`.
    pub fn new() -> (s: Self)
        ensures
            forall|i: u64| i < 5 ==> #[trigger] s.spec_number(i) == Some(i),
            forall|i: u64|
                i < 5 ==> #[trigger] s.spec_block(i) == Some(Block { number: i, hash: i, data: i }),
            forall|i: u64| i >= 5 ==> #[trigger] s.spec_number(i) is None,
            forall|i: u64| i >= 5 ==> #[trigger] s.spec_block(i) is None,
    {
        let mut s = ChainState { numbers: HashMap::new(), blocks: HashMap::new() };
        proof {
            assert(s.numbers@.dom() =~= Set::empty());
            assert(s.blocks@.dom() =~= Set::empty());
        }
        let mut i: u64 = 0;
        while i < 5
            invariant
                i <= 5,
                forall|x: u64| x < i ==> #[trigger] s.spec_number(x) == Some(x),
                forall|x: u64|
                    x < i ==> #[trigger] s.spec_block(x) == Some(
                        Block { number: x, hash: x, data: x },
                    ),
                forall|x: u64| x >= i ==> #[trigger] s.spec_number(x) is None,
                forall|x: u64| x >= i ==> #[trigger] s.spec_block(x) is None,
            decreases 5 - i,
        {
            let ghost pre = s;
            let block = Block { number: i, hash: i, data: i };
            s.numbers.insert(block.hash, block.number);
            s.blocks.insert(block.number, block);
            proof {
                assert forall|x: u64| x < i + 1 implies #[trigger] s.spec_number(x) == Some(
                    x,
                ) by {
                    if x < i {
                        assert(pre.spec_number(x) == Some(x));
                        assert(s.spec_number(x) == pre.spec_number(x));
                    }
                }
                assert forall|x: u64| x < i + 1 implies #[trigger] s.spec_block(x) == Some(
                    Block { number: x, hash: x, data: x },
                ) by {
                    if x < i {
                        assert(pre.spec_block(x) == Some(Block { number: x, hash: x, data: x }));
                        assert(s.spec_block(x) == pre.spec_block(x));
                    }
                }
                assert forall|x: u64| x >= i + 1 implies #[trigger] s.spec_number(x) is None by {
                    assert(pre.spec_number(x) is None);
                    assert(s.spec_number(x) == pre.spec_number(x));
                }
                assert forall|x: u64| x >= i + 1 implies #[trigger] s.spec_block(x) is None by {
                    assert(pre.spec_block(x) is None);
                    assert(s.spec_block(x) == pre.spec_block(x));
                }
            }
            i += 1;
        }
        s
    }
}

/// Reads and writes the chain state in one agreed index order.
pub struct ChainStateManager {
    /// The chain state this manager drives.
    pub state: ChainState,
}

impl ChainStateManager {
    /// Wrap a chain state.
    pub fn new(state: ChainState) -> (m: Self)
        ensures
            m.state == state,
    {
        ChainStateManager { state }
    }

    /// Look a block up by hash: numbers index first, then blocks index.
    pub fn read_operation(&self, hash: u64) -> (r: Option<Block>)
        ensures
            r == match self.state.spec_number(hash) {
                Some(n) => self.state.spec_block(n),
                None => None::<Block>,
            },
    {
        match self.state.numbers.get(&hash) {
            Some(number) => {
                let n = *number;
                match self.state.blocks.get(&n) {
                    Some(b) => Some(*b),
                    None => None,
                }
            },
            None => None,
        }
    }

    /// Insert a block, updating the indexes in the same order as every
    /// reader: numbers first, then blocks.
    pub fn write_operation(&mut self, block: Block)
        ensures
            final(self).state.spec_number(block.hash) == Some(block.number),
            final(self).state.spec_block(block.number) == Some(block),
            forall|h: u64|
                h != block.hash ==> #[trigger] final(self).state.spec_number(h) == old(self).state.spec_number(h),
            forall|n: u64|
                n != block.number ==> #[trigger] final(self).state.spec_block(n) == old(self).state.spec_block(n),
    {
        self.state.numbers.insert(block.hash, block.number);
        self.state.blocks.insert(block.number, block);
    }

    /// Look a block up directly by number, honouring the same index order.
    pub fn another_read(&self, number: u64) -> (r: Option<Block>)
        ensures
            r == self.state.spec_block(number),
    {
        match self.state.blocks.get(&number) {
            Some(b) => Some(*b),
            None => None,
        }
    }
}

} // verus!
