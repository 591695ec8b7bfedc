[package]
name = "aggligator"
version = "0.1.0"
edition = "2021"
publish = false

[dependencies]
anyhow = "1"
async-trait = "0.1"
byteorder = "1"
bytes = "1"
clap = { version = "4", features = ["derive"] }
clap_mangen = "0.2"
clap-markdown = "0.1"
crc32fast = "1"
crossterm = "*"
dashmap = "6"
futures = "0.3"
network-interface = "*"
rand = "0.9"
rustls = { version = "0.23", default-features = false, features = ["std"] }
serde = { version = "1", features = ["derive"] }
socket2 = { version = "*", features = ["all"] }
tokio = { version = "1", features = ["full"] }
tokio_kcp = "*"
tokio-rustls = { version = "0.26", default-features = false }
tracing = "0.1"
tracing-subscriber = "0.3"
