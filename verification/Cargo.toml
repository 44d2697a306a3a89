[package]
name = "qlink_core"
version = "0.1.0"
edition = "2021"
publish = false

[dependencies]
base64 = "=0.22.1"
clap = { version = "=4.6.7", features = ["derive"] }
crc32fast = "=1.5.4"
getrandom = "=0.3.4"
hex = "=0.4.3"
hmac = "=0.12.1"
mdns-sd = "=0.13.11"
reqwest = { version = "=0.12.28", default-features = false, features = ["json"] }
rustls = { version = "=0.23.46", default-features = false, features = ["aws_lc_rs", "std", "tls12", "logging"] }
rustls-pemfile = "=2.2.0"
serde = { version = "=1.0.229", features = ["derive"] }
serde_json = "=1.0.154"
sha1 = "=0.10.7"
sha2 = "=0.10.9"
thiserror = "=1.0.69"
tokio = { version = "=1.54.1", features = ["full"] }
tokio-rustls = { version = "=0.26.6", default-features = false, features = ["aws_lc_rs", "tls12", "logging"] }
tracing = "=0.1.44"
