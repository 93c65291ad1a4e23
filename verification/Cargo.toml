[package]
name = "canister_sandbox"
version = "0.1.0"
edition = "2021"
publish = false

[dependencies]
parity-wasm = { version = "0.42", features = ["std", "bulk"] }
serde = { version = "1", features = ["derive"] }
threadpool = "1.8"
