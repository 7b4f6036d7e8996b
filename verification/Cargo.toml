[package]
name = "finsight_core"
version = "0.1.0"
edition = "2021"
publish = false

[dependencies]
chrono = "0.4"
serde = { version = "1", features = ["derive"] }
serde_json = "1"
uuid = { version = "1", features = ["v4"] }
rusqlite = { version = "*", features = ["bundled"] }
tokio = { version = "1", features = ["sync", "rt", "macros"] }
specta = "*"
utoipa = "*"
