[package]
name = "ldk_sample"
version = "0.1.0"
edition = "2021"
publish = false

[dependencies]
base64 = "0.13"
bech32 = "0.8"
bitcoin = "0.32"
bitcoin-bech32 = "0.12"
chrono = "0.4"
futures-util = "0.3"
hickory-resolver = "0.24"
libc = "0.2"
lightning = { version = "0.2", features = ["dnssec"] }
lightning-background-processor = "0.2"
lightning-block-sync = { version = "0.2", features = ["rpc-client", "tokio"] }
lightning-dns-resolver = "0.3"
lightning-invoice = "0.34"
lightning-net-tokio = "0.2"
lightning-persister = { version = "0.2", features = ["tokio"] }
lightning-rapid-gossip-sync = "0.2"
rand = "0.4"
reqwest = { version = "0.11", default-features = false, features = ["stream", "rustls-tls"] }
serde = { version = "1", features = ["derive"] }
serde_json = "1"
thiserror = "1"
tokio = { version = "1", features = ["full"] }
toml = "0.8"
