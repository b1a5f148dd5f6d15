[package]
name = "hrdf_parser"
version = "0.1.0"
edition = "2021"
publish = false

[dependencies]
chrono = "=0.4.45"
rustc-hash = "=2.1.3"
log = "=0.4.35"
serde = { version = "=1.0.229", features = ["derive"] }
bincode = { version = "=2.0.1", features = ["serde"] }
reqwest = { version = "=0.12.28", default-features = false, features = ["rustls-tls"] }
sha2 = "=0.10.9"
url = "=2.5.8"
zip = { version = "=2.6.1", default-features = false, features = ["deflate"] }
thiserror = "=2.0.21"

[dev-dependencies]
serde_json = "=1.0.154"
