[package]
name = "blob_gc"
version = "0.1.0"
edition = "2021"
publish = false

[dependencies]
bao-tree = { version = "=0.17.0", default-features = false }
derive_more = { version = "=2.1.1", features = ["debug"] }
n0-future = "=0.3.2"
tracing = "=0.1.44"
