[package]
name = "analytics"
version = "0.1.0"
edition = "2021"
publish = false

[dependencies]
serde = { version = "=1.0.229", features = ["derive"] }
serde_json = "=1.0.151"
uuid = { version = "=1.27.0", features = ["serde", "v4"] }
chrono = { version = "=0.4.45", features = ["serde"] }
tera = "1"
term-table = "1"
colored = "2"
