[package]
name = "solana_block_monitor"
version = "0.1.0"
edition = "2021"
rust-version = "1.95"
publish = false

[dependencies]
scc = "=2.4.0"
tokio = { version = "=1.54.1", features = ["rt-multi-thread", "macros", "time", "net", "signal", "fs", "sync"] }
axum = { version = "=0.8.9", default-features = false, features = ["tokio", "http1"] }
tracing = { version = "=0.1.44", default-features = false, features = ["std"] }
tracing-subscriber = "=0.3.23"
solana-rpc-client = { version = "=3.0.14", default-features = false }
solana-commitment-config = "=3.0.0"
