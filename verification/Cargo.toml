[package]
name = "ntfs_scan"
version = "0.1.0"
edition = "2021"
publish = false

[dependencies]
anyhow = "*"
chrono = { version = "*", features = ["serde"] }
clap = { version = "*", features = ["derive"] }
env_logger = "*"
log = "*"
memmap2 = "*"
serde = { version = "*", features = ["derive"] }
serde_json = "*"
