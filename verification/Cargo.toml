[package]
name = "resctl"
version = "0.1.0"
edition = "2021"
publish = false

[dependencies]
rand = "0.8"
serde = { version = "1", features = ["derive"] }
serde_json = "1"
anyhow = "1"
log = "0.4"
chrono = "0.4"
crossbeam = "0.8"
nix = "0.26"
libc = "0.2"
procfs = "0.15"
json = "0.12"
