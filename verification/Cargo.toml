[package]
name = "expo_push_notification_client"
version = "0.1.0"
edition = "2021"
publish = false

[dependencies]
flate2 = "1"
reqwest = { version = "0.12", default-features = false, features = ["json"] }
tokio = { version = "1", features = ["rt", "macros"] }
serde = { version = "1", features = ["derive"] }
serde_json = "1"
thiserror = "1"

[dev-dependencies]
regex = "1"
