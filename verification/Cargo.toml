[package]
name = "delta_schema"
version = "0.1.0"
edition = "2021"
publish = false

[dependencies]
arrow-schema = "*"
half = "2"
indexmap = "2"
itertools = "*"
rand = "0.9"
serde = { version = "1", features = ["derive"] }
serde_json = "1"
tokio = { version = "1", features = ["rt"] }
tracing = "0.1"
url = "2"
uuid = { version = "1", features = ["v4"] }
