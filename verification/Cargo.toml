[package]
name = "tezedge_node"
version = "0.1.0"
edition = "2021"
publish = false

[dependencies]
blake2 = "=0.10.6"
bs58 = { version = "=0.5.1", features = ["check"] }
chrono = { version = "=0.4.45", default-features = false, features = ["alloc", "std"] }
serde = { version = "=1.0.229", features = ["derive"] }
tokio = { version = "=1.54.1", features = ["rt-multi-thread"] }
warp = { version = "=0.3.7", default-features = false }
