[package]
name = "thuki_engine"
version = "0.1.0"
edition = "2021"
publish = false

[dependencies]
parking_lot = "0.12"
serde = { version = "1", features = ["derive"] }
tauri = { version = "2", default-features = false }
thiserror = "2"
tokio = { version = "1", features = ["macros", "rt", "time"] }
tokio-stream = "0.1"
tokio-util = "0.7"
tonic = "0.14"
