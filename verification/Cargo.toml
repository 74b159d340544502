[package]
name = "mochios_developer_ca"
version = "0.1.0"
edition = "2021"
publish = false

[dependencies]
anyhow = "=1.0.104"
base64 = "=0.22.1"
clap = { version = "=4.5.61", features = ["derive"] }
ed25519-dalek = "=2.2.0"
getrandom = "=0.3.4"
serde = { version = "=1.0.229", features = ["derive"] }
serde_json = "=1.0.154"
sha2 = "=0.10.9"
uuid = { version = "=1.29.0", features = ["v7"] }
worker = "=0.7.5"
zeroize = "=1.8.2"
