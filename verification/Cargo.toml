[package]
name = "richmsg"
version = "0.1.0"
edition = "2021"
publish = false

[dependencies]
anyhow = "*"
colored = "*"
rusqlite = { version = "*", features = ["bundled"] }
tracing = "*"
tracing-subscriber = "*"
