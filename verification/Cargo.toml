[package]
name = "get_elastic_templates"
version = "0.1.0"
edition = "2021"
publish = false

[dependencies]
elasticsearch = { version = "8.5.0-alpha.1", default-features = false }
rand = "0.8"
serde = { version = "1", features = ["derive"] }
serde_json = "1"
tokio = { version = "1", features = ["rt-multi-thread", "macros"] }
