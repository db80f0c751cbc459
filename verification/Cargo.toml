[package]
name = "otvetka"
version = "0.1.0"
edition = "2021"
publish = false

[dependencies]
serde = { version = "1", features = ["derive"] }
serde_json = "1"
base64 = "0.22"
reqwest = { version = "0.12", features = ["json", "stream"] }
tokio = { version = "1", features = ["time"] }
futures-util = "0.3"
arboard = "3"
