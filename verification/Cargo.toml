[package]
name = "sase"
version = "0.1.0"
edition = "2021"
publish = false

[dependencies]
anyhow = "=1.0.104"
async-trait = "=0.1.92"
bytes = "=1.12.1"
clap = { version = "=4.6.7", features = ["derive"] }
env_logger = "=0.11.11"
etherparse = "=0.19.0"
futures = "=0.3.34"
ipnetwork = "=0.21.1"
lazy_static = "=1.5.1"
libc = "=0.2.191"
log = "=0.4.35"
nanoid = "=0.4.0"
native-tls = "=0.2.18"
prost = "=0.13.5"
serde = { version = "=1.0.229", features = ["derive"] }
serde_json = "=1.0.154"
socket2 = "=0.5.10"
tokio = { version = "=1.54.1", features = ["full"] }
tokio-native-tls = "=0.3.1"
tokio-tungstenite = { version = "=0.24.0", features = ["native-tls"] }
tokio-util = { version = "=0.7.20", features = ["codec", "net"] }
toml = "=0.8.23"
tun2 = { version = "=4.0.0", features = ["async"] }
url = "=2.5.8"
