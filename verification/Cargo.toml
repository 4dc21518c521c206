[package]
name = "spotcast"
version = "0.1.0"
edition = "2021"
publish = false

[dependencies]
evalexpr = "*"
serde = { version = "1", features = ["derive"] }
serde_json = "1"
rusqlite = { version = "*", features = ["bundled"] }
notify = "*"
open = "*"
dirs = "*"
