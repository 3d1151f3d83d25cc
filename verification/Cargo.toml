[package]
name = "plexus"
version = "0.1.0"
edition = "2021"
publish = false

[dependencies]
alloy = { version = "*", default-features = false, features = ["rpc-client", "json-rpc", "transports"] }
alloy-primitives = "*"
dirs = "*"
hex = "*"
rand = "0.8"
reqwest = { version = "*", default-features = false, features = ["json"] }
serde = { version = "*", features = ["derive"] }
serde_json = "*"
thiserror = "*"
tokio = { version = "*", features = ["time", "sync", "rt", "macros"] }
tower = "*"
tracing = "*"
