[package]
name = "interop_tests"
version = "0.1.0"
edition = "2021"
publish = false

[dependencies]
anyhow = "1"
axum = { version = "0.6", default-features = false, features = ["http1", "tokio"] }
blockstore = "0.8"
cid = "0.11"
futures-util = "0.3"
libp2p = { version = "0.56", features = ["cbor", "macros", "request-response", "serde", "tokio"] }
mime_guess = "2"
multihash-codetable = { version = "0.2", features = ["blake3"] }
rand = "0.8"
rust-embed = "8"
serde = { version = "1", features = ["derive"] }
thirtyfour = "0.32"
tokio = { version = "1", features = ["io-util", "macros", "process", "rt-multi-thread", "sync", "time"] }
tower-http = { version = "0.4", features = ["cors"] }
tracing = "0.1"
tracing-subscriber = { version = "0.3", features = ["env-filter"] }
