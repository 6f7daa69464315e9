[package]
name = "omnigraph"
version = "0.1.0"
edition = "2021"
publish = false

[dependencies]
arrow-array = { version = "*", default-features = false }
arrow-schema = { version = "*", default-features = false }
async-trait = "0.1"
futures = "0.3"
serde = { version = "1", features = ["derive"] }
serde_json = "1"
tokio = { version = "1", features = ["sync"] }
tracing = "0.1"
ulid = "1"

[dev-dependencies]
tempfile = "3"
