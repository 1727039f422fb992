[package]
name = "fastxt"
version = "0.1.0"
edition = "2021"
publish = false

[dependencies]
regex = "1"
linked_hash_set = "0.1"
serde_json = "1"
semver = "1"
serde = { version = "1", features = ["derive"] }
rusqlite = { version = "*", features = ["bundled"] }
sqlite-vec = "*"
zerocopy = "*"
chrono = "0.4"
uuid = { version = "1", features = ["v4"] }
dirs = "*"
reqwest = { version = "*", default-features = false, features = ["blocking", "json"] }
tarpc = { version = "*", features = ["full"] }
tokio = { version = "1", features = ["full"] }
futures = "0.3"
if-addrs = "*"
tracing = "0.1"
tracing-subscriber = { version = "0.3", features = ["env-filter"] }
clap = "4"
rmcp = { version = "*", features = ["server", "macros", "transport-io"] }
schemars = "*"
anyhow = "1"
qrcode = "*"
