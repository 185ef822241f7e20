//! Mempool operation storage and the node's RPC state machine, with their
//! contracts proved.

pub mod bytes;
pub mod hashes;
pub mod kv_table;
pub mod mempool_storage;
pub mod persistent;
pub mod rpc;
