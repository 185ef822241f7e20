# tezedge_node

A verified library for two parts of a Tezos node:

- `mempool_storage`: the keys of mempool operations (a type tag followed by
  the 32-byte operation hash), their encoding and decoding, and a store of
  operations keyed by them (`kv_table` holds the entries).
- `rpc`: the state the RPC server collects from the shell (`state`), how
  applied blocks move the current head and which stored block becomes the
  head at start-up (`actor`), the answers of the handlers (`handlers`,
  `encoding`, `time`) and the routing of request paths (`filters`).

`persistent::PersistentStorage` is the node's key-value store, held in
memory. A `MempoolStorage` is a handle on its mempool column that keeps
nothing itself: every handle made for a store, and every copy of one, reads
what the others wrote to that store, which is passed to each `put` and `get`.

`hashes` computes Blake2b-256 digests and Base58Check strings through the
`blake2` and `bs58` crates; `rpc::time` prints timestamps through `chrono`.

`app/` holds what runs around the library: the shared state behind a lock,
the HTTP server on `warp`, and the JSON form of the answers.
