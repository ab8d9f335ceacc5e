[package]
name = "tla_connect"
version = "0.1.0"
edition = "2021"
publish = false

[dependencies]
base64 = "0.22"
itf = "*"
rand = "0.9"
rayon = "1"
reqwest = { version = "0.12", default-features = false, features = ["json"] }
serde = { version = "1", features = ["derive"] }
serde_json = "1"
similar = "2"
tempfile = "3"
thiserror = "1"
tokio = { version = "1", features = ["time"] }
tracing = "0.1"
