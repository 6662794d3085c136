[package]
name = "ydl_gui"
version = "0.1.0"
edition = "2021"
publish = false

[dependencies]
serde = { version = "=1.0.229", features = ["derive"] }
serde_json = "=1.0.154"
rusqlite = { version = "=0.41.1", features = ["bundled"] }
which = "=8.0.6"
zip = { version = "=2.6.1", default-features = false, features = ["deflate"] }
