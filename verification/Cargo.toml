[package]
name = "demu"
version = "0.4.0"
edition = "2021"
publish = false

[dependencies]
anyhow = "1"
clap = { version = "4", features = ["derive"] }
rustyline = "14"
serde = { version = "1", features = ["derive"] }
serde_yaml = "0.9"
