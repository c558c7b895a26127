[package]
name = "tauri-plugin-corner-snap"
version = "0.1.0"
edition = "2021"
publish = false

[dependencies]
serde = { version = "1", features = ["derive"] }
log = "0.4"
tauri = { version = "2", default-features = false }

[dev-dependencies]
serde_json = "1"
