[package]
name = "swift_network"
version = "0.1.0"
edition = "2021"
publish = false

[dependencies]
sha2 = "0.10"
rand = "0.8"
ed25519-dalek = "1"
blst = "0.3"
serde = { version = "1", features = ["derive"] }
serde_json = "1"
thiserror = "1"
hex = "0.4"
bincode = "1"
toml = "0.8"
tokio = { version = "1", features = ["sync", "time", "rt", "macros"] }
