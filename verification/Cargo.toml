[package]
name = "codex_pacer"
version = "0.1.0"
edition = "2021"
publish = false

[dependencies]
chrono = "0.4"
serde = { version = "1", features = ["derive"] }
serde_json = "1"
rusqlite = { version = "*", features = ["bundled"] }
walkdir = "2"
dirs = "*"
log = "0.4"
ureq = "2"

[dev-dependencies]
tempfile = "3"
