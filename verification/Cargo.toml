[package]
name = "ktool"
version = "0.1.0"
edition = "2021"
publish = false

[dependencies]
anyhow = "1"
base64 = "0.22"
bincode = "1"
clap = { version = "4", features = ["derive"] }
indicatif = "0.17"
rdkafka = "*"
serde = { version = "1", features = ["derive"] }
serde_json = "1"
thiserror = "*"
