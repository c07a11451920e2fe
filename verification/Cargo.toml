[package]
name = "passclip"
version = "0.1.0"
edition = "2021"
publish = false

[dependencies]
regex = "=1.13.1"
uuid = { version = "=1.29.0", features = ["v4"] }
chrono = "=0.4.45"
url = "=2.5.8"
webauthn-rs = "=0.5.5"
serde = { version = "=1.0.229", features = ["derive"] }
serde_json = "=1.0.154"
toml = "=0.8.23"
clap = { version = "=4.6.7", features = ["derive"] }
tokio = { version = "=1.54.1", features = ["full"] }
log = "=0.4.35"
env_logger = "=0.11.11"
arboard = "=3.7.0"
fd-lock = "=4.0.4"
zeroize = { version = "=1.9.1", features = ["derive"] }
notify-rust = "=4.18.2"
chacha20poly1305 = "0.10"
