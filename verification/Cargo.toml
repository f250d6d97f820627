[package]
name = "lthash_statedb"
version = "0.1.0"
edition = "2021"
publish = false

[dependencies]
alloy-primitives = "1"
blake3 = "1"
rand = "0.8"
rayon = "1"
rocksdb = "*"
thiserror = "2"
