[package]
name = "l4lb"
version = "0.1.0"
edition = "2021"
publish = false

[dependencies]
bytes = "=1.12.1"
dashmap = "=6.2.1"
ipnet = "=2.12.2"
bincode = { version = "=2.0.1", features = ["serde"] }
rand = "=0.9.5"
anyhow = "=1.0.104"
log = "=0.4.34"
env_logger = "=0.11.11"
clap = { version = "=4.6.7", features = ["derive"] }
serde = { version = "=1.0.229", features = ["derive"] }
serde_yaml = "0.9"
thiserror = "=1.0.69"
tokio = { version = "=1.54.1", features = ["full"] }
socket2 = { version = "=0.5.10", features = ["all"] }
notify = "=6.1.1"
foca = { version = "=1.0.0", features = ["bincode-codec", "std"] }
rustls = { version = "0.23", default-features = false, features = ["ring", "std", "tls12", "logging"] }
tokio-rustls = { version = "0.26", default-features = false, features = ["ring", "tls12", "logging"] }
rustls-pemfile = "2"
webpki-roots = "0.26"
prometheus = { version = "0.13", default-features = false }
lazy_static = "1"
hyper = { version = "1", features = ["server", "http1"] }
http-body-util = "0.1"
