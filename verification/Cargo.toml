[package]
name = "qbfrt"
version = "0.1.0"
edition = "2021"
publish = false

[dependencies]
rusqlite = { version = "*", features = ["bundled"] }
serde = { version = "*", features = ["derive"] }
serde_derive = "*"
serde_rusqlite = "*"
figlet-rs = "*"
