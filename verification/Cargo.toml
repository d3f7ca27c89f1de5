[package]
name = "dispatch_agent"
version = "0.1.0"
edition = "2021"
publish = false

[dependencies]
anyhow = "=1.0.104"
indexmap = { version = "=2.14.2", features = ["serde"] }
serde = { version = "=1.0.229", features = ["derive"] }
toml = { version = "=1.1.8", features = ["preserve_order"] }

[dev-dependencies]
tempfile = "=3.27.0"
