//! What the RPC handlers answer.

use crate::hashes::{block_hash_string, block_hash_to_b58check, HASH_LEN};
use crate::rpc::encoding::{BootstrapInfo, TimeStamp, TimeStampView, UniString};
use crate::rpc::state::RpcCollectedState;
use crate::rpc::time::{rfc3339_utc, ts_to_rfc3339, MAX_TIMESTAMP, MIN_TIMESTAMP};
use vstd::prelude::*;

verus! {

/// Whether `bootstrapped` can answer for this state: a head, if there is
/// one, has a 32-byte hash and a timestamp that can be printed.
pub open spec fn can_describe_head(state: RpcCollectedState) -> bool {
    state.head() matches Some(head) ==> {
        &&& head.hash.len() == HASH_LEN
        &&& MIN_TIMESTAMP <= head.timestamp <= MAX_TIMESTAMP
    }
}

/// The answer to `/monitor/bootstrapped`: the hash and time of the current
/// head, or an empty hash and time zero while there is no head.
pub fn bootstrapped(state: &RpcCollectedState) -> (info: BootstrapInfo)
    requires
        can_describe_head(*state),
    ensures
        info@ == match state.head() {
            Some(head) => (block_hash_string(head.hash), TimeStampView::Rfc(rfc3339_utc(head.timestamp))),
            None => (Seq::<char>::empty(), TimeStampView::Integral(0)),
        },
{
    match state.current_head() {
        Some(current_head) => {
            let block = block_hash_to_b58check(current_head.hash.as_slice());
            let timestamp = ts_to_rfc3339(current_head.timestamp);
            BootstrapInfo::new(UniString::from_string(block), TimeStamp::Rfc(timestamp))
        },
        None => BootstrapInfo::new(UniString::from_string(String::new()), TimeStamp::Integral(0)),
    }
}

/// The answer to `/monitor/commit_hash`: the commit the node was built from.
pub fn commit_hash(git_hash: &str) -> (hash: UniString)
    ensures
        hash@ == git_hash@,
{
    UniString::from_str(git_hash)
}

/// What `/chains/<chain_id>/blocks/<block_id>` looks up.
pub enum BlockLookup {
    /// The current head of the main chain.
    CurrentHead,
    /// The block of the main chain that the id names.
    Block(String),
    /// Nothing: only the main chain is served, and the answer is empty.
    NoSuchChain,
}

/// What to look up for a chain id and a block id: `main` and `head` name the
/// current head, `main` and any other id a block of the main chain.
pub fn chains_block_id(chain_id: String, block_id: String) -> (lookup: BlockLookup)
    ensures
        chain_id@ == "main"@ && block_id@ == "head"@ ==> lookup is CurrentHead,
        chain_id@ == "main"@ && block_id@ != "head"@ ==> (lookup matches BlockLookup::Block(id) && id@ == block_id@),
        chain_id@ != "main"@ ==> lookup is NoSuchChain,
{
    let main = "main".to_owned();
    let head = "head".to_owned();
    if chain_id == main {
        if block_id == head {
            BlockLookup::CurrentHead
        } else {
            BlockLookup::Block(block_id)
        }
    } else {
        BlockLookup::NoSuchChain
    }
}

} // verus!
