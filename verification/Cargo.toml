[package]
name = "tmux_lib"
version = "0.1.0"
edition = "2021"
publish = false

[dependencies]
serde = { version = "=1.0.229", features = ["derive"] }
smol = "=2.0.2"
thiserror = "=1.0.69"

[dev-dependencies]
nom = "=8.0.0"
