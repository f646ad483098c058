[package]
name = "cargo-revolve"
version = "0.1.0"
edition = "2021"
publish = false

[dependencies]
anyhow = "1"
cargo_metadata = "*"
clap = { version = "4", features = ["derive"] }
env_logger = "*"
flate2 = "1"
log = "0.4"
rpm = { version = "*", default-features = false }
serde = { version = "1", features = ["derive"] }
shlex = "1"
tar = "0.4"
tera = "1"
toml = "*"
walkdir = "2"
which = "*"
