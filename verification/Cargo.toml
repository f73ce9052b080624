[package]
name = "weld_db"
version = "0.1.0"
edition = "2021"
publish = false

[dependencies]
serde_json = { version = "1.0", features = ["preserve_order", "float_roundtrip"] }
slog = "2"
