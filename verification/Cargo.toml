[package]
name = "wispers_connect"
version = "0.8.0"
edition = "2021"
publish = false

[dependencies]
httparse = "=1.10.1"
hkdf = "=0.12.4"
sha2 = "=0.10.9"
aes-gcm = "0.10"
tokio = { version = "=1.54.1", features = ["net", "io-util", "time", "rt", "macros", "sync"] }
serde = { version = "=1.0.229", features = ["derive"] }
serde_json = "=1.0.154"
bincode = "=1.3.3"
anyhow = "=1.0.104"
