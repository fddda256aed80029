[package]
name = "nylon"
version = "0.1.0"
edition = "2021"
publish = false

[dependencies]
anyhow = "=1.0.104"
aws-lc-rs = "=1.18.1"
base64 = "=0.23.1"
base64-serde = "=0.8.0"
bitcode = { version = "=0.6.9", features = ["serde"] }
chrono = { version = "=0.4.45", features = ["serde"] }
clap = { version = "=4.6.7", features = ["derive"] }
crossbeam-channel = "=0.5.17"
ctrlc = "=3.5.2"
defguard_wireguard_rs = "=0.12.2"
env_logger = "=0.11.11"
iptables = "=0.6.0"
log = "=0.4.34"
root = "=0.1.1"
serde = { version = "=1.0.229", features = ["derive"] }
serde_json = "=1.0.151"
tokio = { version = "=1.53.2", features = ["full"] }
tokio-util = "=0.7.19"
uuid = { version = "=1.27.0", features = ["v4", "serde"] }
x25519-dalek = { version = "=3.0.0", features = ["getrandom", "static_secrets"] }
zeroize = { version = "=1.9.0", features = ["zeroize_derive"] }
