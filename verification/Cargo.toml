[package]
name = "serve_core"
version = "0.1.0"
edition = "2021"
publish = false

[dependencies]
bb8-postgres = "*"
dotenvy = "*"
serde = { version = "1", features = ["derive"] }
serde_json = "1"
tokio = { version = "1", features = ["full"] }
