[package]
name = "rustmesh"
version = "0.1.0"
edition = "2021"
publish = false

[dependencies]
wincode = { version = "*", features = ["derive"] }
libp2p = { version = "*", features = ["gossipsub", "identify", "kad", "mdns", "quic", "tokio", "macros", "ed25519"] }
ed25519-dalek = { version = "2", features = ["rand_core"] }
rand = "0.8"
sha2 = "0.10"
hex = "0.4"
serde = { version = "1", features = ["derive"] }
serde_json = "1"
toml = "*"
thiserror = "*"
anyhow = "1"
tokio = { version = "1", features = ["full"] }
tracing = "0.1"
tracing-subscriber = { version = "0.3", features = ["env-filter"] }
clap = { version = "4", features = ["derive"] }
once_cell = "1"
mdns-sd = "*"
quinn = "0.11"
rustls = { version = "0.23", features = ["ring"] }
rcgen = "*"
futures = "0.3"
uuid = "1"
async-trait = "0.1"
