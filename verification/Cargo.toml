[package]
name = "picstore"
version = "0.1.0"
edition = "2021"
publish = false

[dependencies]
jiff = "*"
rusqlite = { version = "*", features = ["bundled"] }
walkdir = "*"
serde = { version = "*", features = ["derive"] }
serde_json = "*"
