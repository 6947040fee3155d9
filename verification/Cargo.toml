[package]
name = "internotes"
version = "0.1.0"
edition = "2021"
publish = false

[dependencies]
dashmap = "6"
uuid = { version = "1", features = ["v4", "serde"] }
qrcodegen = "1.8"
rusqlite = { version = "*", features = ["bundled"] }
serde = { version = "1", features = ["derive"] }
serde_json = "1"
actix-web = { version = "4", default-features = false, features = ["macros"] }
actix-files = "0.6"
actix-rt = "2"
tokio = { version = "1", features = ["macros", "time"] }
env_logger = "0.11"
derive_more = { version = "*", features = ["display", "from_str"] }
