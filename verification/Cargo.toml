[package]
name = "limedl-core"
version = "0.1.0"
edition = "2021"
publish = false

[dependencies]
reqwest = { version = "0.12", default-features = false, features = ["stream"] }
percent-encoding = "2"
sanitize-filename = "*"
serde = { version = "1", features = ["derive"] }
serde_json = "1"
xxhash-rust = { version = "*", features = ["xxh3"] }
blake3 = "1"
tokio = { version = "1", features = ["full"] }
tokio-util = "*"
rusqlite = { version = "*", features = ["bundled"] }
uuid = { version = "1", features = ["v4"] }
anyhow = "1"
thiserror = "*"
parking_lot = "0.12"
tracing = "0.1"
tracing-subscriber = { version = "0.3", features = ["env-filter"] }
futures-util = "0.3"
bytes = "1"
dashmap = "*"
foldhash = "*"
fs4 = "*"
libc = "0.2"
async-trait = "0.1"
