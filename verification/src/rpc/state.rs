//! The state that the RPC server collects from the shell.

use vstd::prelude::*;

verus! {

/// A block that the shell has applied, with what the RPC server reads of
/// it: its hash, its level and its timestamp in seconds since the epoch.
pub struct BlockApplied {
    pub hash: Vec<u8>,
    pub level: i32,
    pub timestamp: i64,
}

/// A block as the contracts see it.
pub struct BlockView {
    pub hash: Seq<u8>,
    pub level: i32,
    pub timestamp: i64,
}

impl View for BlockApplied {
    type V = BlockView;

    open spec fn view(&self) -> BlockView {
        BlockView { hash: self.hash@, level: self.level, timestamp: self.timestamp }
    }
}

/// The view of an optional block.
pub open spec fn head_view(head: Option<BlockApplied>) -> Option<BlockView> {
    match head {
        Some(b) => Some(b@),
        None => None,
    }
}

impl BlockApplied {
    pub fn new(hash: Vec<u8>, level: i32, timestamp: i64) -> (block: BlockApplied)
        ensures
            block@ == (BlockView { hash: hash@, level, timestamp }),
    {
        BlockApplied { hash, level, timestamp }
    }
}

/// Represents various collected information about the internal state of
/// the node: its current head and the chain it follows.
pub struct RpcCollectedState {
    current_head: Option<BlockApplied>,
    chain_id: Vec<u8>,
}

impl RpcCollectedState {
    /// The current head.
    pub closed spec fn head(&self) -> Option<BlockView> {
        head_view(self.current_head)
    }

    /// The chain id.
    pub closed spec fn chain(&self) -> Seq<u8> {
        self.chain_id@
    }

    pub fn new(current_head: Option<BlockApplied>, chain_id: Vec<u8>) -> (state: RpcCollectedState)
        ensures
            state.head() == head_view(current_head),
            state.chain() == chain_id@,
    {
        RpcCollectedState { current_head, chain_id }
    }

    pub fn current_head(&self) -> (head: &Option<BlockApplied>)
        ensures
            head_view(*head) == self.head(),
    {
        &self.current_head
    }

    pub fn set_current_head(&mut self, current_head: Option<BlockApplied>)
        ensures
            final(self).head() == head_view(current_head),
            final(self).chain() == old(self).chain(),
    {
        self.current_head = current_head;
    }

    pub fn chain_id(&self) -> (chain_id: &Vec<u8>)
        ensures
            chain_id@ == self.chain(),
    {
        &self.chain_id
    }
}

} // verus!
