[package]
name = "archon"
version = "0.1.0"
edition = "2021"
publish = false

[dependencies]
serde = { version = "1", features = ["derive"] }
toml = "0.8"
bincode = "1"
thiserror = "1"
image = { version = "0.25", default-features = false, features = ["png", "jpeg"] }
pam = "0.7"
