//! The node's key-value store. Each storage of the node is a handle on one
//! of its columns; handles on one store read what the others wrote.

use crate::kv_table::KvTable;
use crate::mempool_storage::MempoolValue;
use vstd::prelude::*;

verus! {

/// The node's key-value store.
pub struct PersistentStorage {
    mempool: KvTable<MempoolValue>,
}

impl PersistentStorage {
    #[verifier::type_invariant]
    closed spec fn inv(self) -> bool {
        self.mempool.wf()
    }

    /// The column that holds the mempool: values by encoded key.
    pub closed spec fn mempool_column(self) -> Map<Seq<u8>, MempoolValue> {
        self.mempool@
    }

    /// An empty store.
    pub fn new() -> (store: PersistentStorage)
        ensures
            store.mempool_column() == Map::<Seq<u8>, MempoolValue>::empty(),
    {
        PersistentStorage { mempool: KvTable::new() }
    }

    /// The value stored under `key` in the mempool column.
    pub(crate) fn mempool_get(&self, key: &[u8]) -> (res: Option<&MempoolValue>)
        ensures
            match res {
                Some(v) => self.mempool_column().contains_key(key@) && *v == self.mempool_column()[key@],
                None => !self.mempool_column().contains_key(key@),
            },
    {
        proof {
            use_type_invariant(self);
        }
        self.mempool.get(key)
    }

    /// Stores `value` under `key` in the mempool column.
    pub(crate) fn mempool_put(&mut self, key: Vec<u8>, value: MempoolValue)
        ensures
            final(self).mempool_column() == old(self).mempool_column().insert(key@, value),
    {
        proof {
            use_type_invariant(&*self);
        }
        let mut column: KvTable<MempoolValue> = KvTable::new();
        std::mem::swap(&mut column, &mut self.mempool);
        column.insert(key, value);
        self.mempool = column;
    }
}

} // verus!
