[package]
name = "smp_client"
version = "0.1.0"
edition = "2021"
publish = false

[dependencies]
anyhow = "1"
bluest = "*"
crc16 = "0.4"
futures = "0.3"
log = "0.4"
rand = "0.8"
serialport = { version = "4", default-features = false }
sha2 = "0.10"
tokio = { version = "1", features = ["rt", "time"] }
uuid = "1"

[dev-dependencies]
base64 = "0.22"
serde_cbor = "0.11"
