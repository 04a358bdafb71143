[package]
name = "zeronode_client"
version = "0.1.0"
edition = "2021"
publish = false

[dependencies]
serde_json = "=1.0.154"
anyhow = "=1.0.104"
clap = { version = "=4.6.7", features = ["derive"] }
rusqlite = { version = "=0.41.1", features = ["bundled"] }
tokio = { version = "=1.54.1", features = ["rt-multi-thread", "time", "macros"] }
tracing = "=0.1.44"
libc = "0.2"
