[package]
name = "mx"
version = "0.1.0"
edition = "2021"
publish = false

[dependencies]
anyhow = "=1.0.104"
iced = { version = "=0.1.1", features = ["tokio"] }
iced_native = "=0.2.2"
md5 = "=0.7.0"
mime_guess = "=2.0.5"
reqwest = { version = "=0.10.10", features = ["json", "stream"] }
serde = { version = "=1.0.229", features = ["derive"] }
serde_json = "=1.0.154"
tokio = { version = "=0.2.25", features = ["full"] }
tokio-util = { version = "=0.3.1", features = ["codec"] }
walkdir = "=2.5.0"
