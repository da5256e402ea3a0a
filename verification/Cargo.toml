[package]
name = "p2pshare_core"
version = "0.1.0"
edition = "2021"
publish = false

[dependencies]
bip39 = "2"
clap = { version = "4", features = ["derive"] }
flutter_rust_bridge = "2"
hex = "0.4"
libc = "0.2"
mainline = "2"
mdns-sd = "*"
quinn = "0.11"
rand = "0.8"
rcgen = "0.13"
rmp-serde = "1"
rusqlite = { version = "0.31", features = ["bundled"] }
rustls = { version = "0.23", default-features = false, features = ["ring", "std"] }
serde = { version = "1", features = ["derive"] }
serde_json = "1"
sha1 = "0.10"
sha2 = "0.10"
snow = "0.9"
socket2 = { version = "0.5", features = ["all"] }
thiserror = "1"
tokio = { version = "1", features = ["full"] }
tracing = "0.1"
tracing-subscriber = { version = "0.3", features = ["env-filter"] }
uuid = { version = "1", features = ["v4"] }
x25519-dalek = { version = "2", features = ["static_secrets", "getrandom"] }
