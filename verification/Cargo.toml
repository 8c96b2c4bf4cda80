[package]
name = "lancedb_bridge"
version = "0.1.0"
edition = "2021"
publish = false

[dependencies]
arrow-array = "*"
arrow-schema = "*"
futures-util = { version = "*", default-features = false, features = ["std"] }
tokio = { version = "*", default-features = false, features = ["rt-multi-thread"] }
lazy_static = "*"
