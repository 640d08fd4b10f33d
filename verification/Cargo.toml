[package]
name = "workspace_hash"
version = "0.1.0"
edition = "2021"
publish = false

[dependencies]
dashmap = "5"
globset = "0.4"
xxhash-rust = { version = "0.8", features = ["xxh3"] }
