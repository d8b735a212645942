[package]
name = "kube_config_updater"
version = "0.1.0"
edition = "2021"
publish = false

[dependencies]
anyhow = "=1.0.104"
base64 = "=0.22.1"
chrono = { version = "=0.4.45", default-features = false, features = ["clock"] }
clap = { version = "=4.6.7", features = ["derive"] }
dirs = "=7.0.0"
keyring = { version = "=3.6.3", default-features = false }
log = "=0.4.34"
rayon = "=1.12.0"
serde = { version = "=1.0.229", features = ["derive"] }
serde_json = "=1.0.151"
serde_yaml = "=0.9.34"
sha2 = "=0.10.9"
ssh2 = "=0.9.6"
toml = "=0.8.23"
x509-parser = "=0.18.1"
