[package]
name = "schemamaker"
version = "0.1.0"
edition = "2021"
publish = false

[dependencies]
clap = { version = "4", features = ["derive"] }
owo-colors = { version = "4", features = ["supports-colors"] }
serde_json = { version = "1", features = ["preserve_order"] }
