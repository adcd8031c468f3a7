[package]
name = "agent_collab"
version = "0.1.0"
edition = "2021"
publish = false

[dependencies]
color-eyre = "0.6"
ratatui = { version = "0.29", default-features = false }
serde = { version = "1", features = ["derive"] }
serde_json = "1"
tokio = { version = "1", features = ["fs", "time"] }
tracing = "0.1"
unicode-segmentation = "1"
uuid = { version = "1", features = ["v4", "v7"] }
