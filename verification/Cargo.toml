[package]
name = "dokp"
version = "0.1.0"
edition = "2021"
publish = false

[dependencies]
chrono = { version = "=0.4.45", features = ["serde"] }
hex = "=0.4.3"
reqwest = { version = "0.12", default-features = false, features = ["blocking", "json", "multipart"] }
serde = { version = "=1.0.229", features = ["derive"] }
serde_json = "=1.0.154"
sha2 = "=0.10.9"
thiserror = "=2.0.21"
uuid = { version = "=1.29.0", features = ["v7"] }
