[package]
name = "ursa_node"
version = "0.1.0"
edition = "2021"
publish = false

[dependencies]
anyhow = "1"
axum = { version = "0.6", features = ["headers"] }
bytes = "1"
fnv = "1"
futures-util = "0.3"
hyper = { version = "0.14", features = ["client", "http1", "tcp"] }
libp2p = { version = "0.57", default-features = false, features = ["autonat", "dcutr", "gossipsub", "identify", "kad", "mdns", "ping", "relay", "request-response", "tokio", "macros"] }
rand = "0.8"
tokio = { version = "1", features = ["macros", "rt", "sync", "time", "io-util"] }
tokio-util = { version = "0.7", features = ["io"] }
tracing = "0.1"
