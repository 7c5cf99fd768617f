[package]
name = "good_morning"
version = "0.1.0"
edition = "2021"
publish = false

[dependencies]
dotenv = "*"
ollama-rs = "*"
reqwest = { version = "*", features = ["json"] }
serde = { version = "*", features = ["derive"] }
serde_json = "*"
tokio = { version = "*", features = ["full"] }
