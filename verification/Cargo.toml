[package]
name = "tito"
version = "0.1.0"
edition = "2021"
publish = false

[dependencies]
serde = { version = "1", features = ["derive"] }
serde_json = "1"
clap = { version = "3", features = ["derive"] }
log = "0.4"
chrono = "0.4"
tempdir = "0.3"
wait-timeout = "0.2"
