[package]
name = "htx_cover"
version = "0.1.0"
edition = "2021"
publish = false

[dependencies]
aes-gcm = "=0.10.3"
async-trait = "=0.1.92"
bytes = "=1.12.1"
chacha20poly1305 = "=0.10.1"
clap = { version = "=4.6.7", features = ["derive"] }
hkdf = "=0.12.4"
libc = "=0.2.191"
md-5 = "=0.10.6"
pcap-parser = "=0.14.1"
pnet_packet = "=0.34.0"
rustls = { version = "=0.21.12", features = ["dangerous_configuration"] }
serde = { version = "=1.0.229", features = ["derive"] }
serde_json = "=1.0.154"
sha2 = "=0.10.9"
thiserror = "=1.0.69"
tokio = { version = "=1.54.1", features = ["rt", "net", "io-util"] }
tokio-rustls = "=0.24.1"
