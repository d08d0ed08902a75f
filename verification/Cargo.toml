[package]
name = "enigma"
version = "0.1.0"
edition = "2021"
publish = false

[dependencies]
ring = "0.17"
x25519-dalek = { version = "2", features = ["static_secrets"] }
ed25519-dalek = "2"
rand_core = { version = "0.6", features = ["getrandom"] }
hkdf = "0.12"
sha2 = "0.10"
anyhow = "1"
serde = { version = "1", features = ["derive"] }
serde_json = "1"
bincode = "1"
chrono = { version = "0.4", features = ["serde"] }
uuid = { version = "1", features = ["v4", "serde"] }
tokio = { version = "1", features = ["full"] }
reqwest = { version = "0.11", features = ["json"] }
sled = "0.34"
toml = "0.8"
actix-web = "4"
async-trait = "0.1"
webrtc = "*"
