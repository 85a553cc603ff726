[package]
name = "pho"
version = "0.1.0"
edition = "2021"
publish = false

[dependencies]
serde = { version = "=1.0.229", features = ["derive"] }
toml = "=0.8.23"
thiserror = "=1.0.69"
csv = "=1.4.0"
rand = "=0.8.8"
rayon = "=1.12.0"
indicatif = "=0.17.11"
clap = { version = "=4.6.7", features = ["derive"] }
include_dir = "=0.7.4"
once_cell = "=1.21.4"
arrow = { version = "=60.1.0", default-features = false, features = ["ipc"] }
parquet = { version = "=60.1.0", default-features = false, features = ["arrow"] }
