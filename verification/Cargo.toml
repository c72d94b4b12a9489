[package]
name = "ttyd"
version = "2.0.1"
edition = "2021"
publish = false

[dependencies]
anyhow = "1"
axum = { version = "0.8", features = ["ws"] }
base64 = "0.22"
flate2 = "1"
futures-util = { version = "0.3", features = ["sink"] }
hyper = { version = "1", features = ["full"] }
hyper-util = { version = "0.1", features = ["full"] }
libc = "0.2"
moka = { version = "0.12", features = ["sync"] }
nix = { version = "0.29", features = ["fs", "hostname", "ioctl", "net", "process", "signal", "term", "user"] }
reqwest = { version = "0.12", default-features = false, features = ["rustls-tls"] }
rustls = { version = "0.23", default-features = false, features = ["logging", "ring", "std", "tls12"] }
rustls-pemfile = "2"
serde = { version = "1", features = ["derive"] }
serde_json = { version = "1", features = ["preserve_order"] }
subtle = "2"
tokio = { version = "1", features = ["full"] }
tokio-rustls = { version = "0.26", default-features = false, features = ["logging", "ring", "tls12"] }
tower = { version = "0.5", features = ["util"] }
tracing = "0.1"
tracing-subscriber = "0.3"
