[package]
name = "rs_blog"
version = "0.1.0"
edition = "2021"
publish = false

[dependencies]
anyhow = "1"
poem = "3"
serde = { version = "1", features = ["derive"] }
serde_json = "1"
tokio = { version = "1", features = ["full"] }
tracing = "0.1"
tracing-subscriber = "0.3"
rand = "0.8"
lettre = { version = "0.11", default-features = false, features = ["builder", "smtp-transport", "tokio1"] }
