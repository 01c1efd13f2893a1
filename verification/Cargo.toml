[package]
name = "orderflow"
version = "0.1.0"
edition = "2021"
publish = false

[dependencies]
crc32fast = "1"
serde = { version = "1", features = ["derive"] }
serde_json = "1"
chrono = { version = "0.4", default-features = false, features = ["clock", "std"] }
toml = "0.8"
tokio = { version = "1", features = ["macros", "rt"] }
