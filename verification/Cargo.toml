[package]
name = "copilot_desktop"
version = "0.1.0"
edition = "2021"
publish = false

[dependencies]
copilot-sdk = "*"
rusqlite = { version = "*", features = ["bundled"] }
serde = { version = "*", features = ["derive"] }
serde_json = "*"
thiserror = "*"
tokio = { version = "*", features = ["full"] }
tokio-util = "*"
uuid = { version = "*", features = ["v4"] }
which = "*"
