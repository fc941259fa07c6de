[package]
name = "token_ledger"
version = "0.1.0"
edition = "2021"
publish = false

[dependencies]
blake2b_simd = "1"
cid = "0.11"
convert_case = "0.6"
fvm_ipld_blockstore = "0.3"
fvm_ipld_encoding = "0.5"
fvm_sdk = "4"
fvm_shared = "4"
multihash-codetable = { version = "*", features = ["blake2b"] }
num-traits = "0.2"
serde = { version = "1", features = ["derive"] }
thiserror = "1"
