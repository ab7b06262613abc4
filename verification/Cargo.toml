[package]
name = "vss_store"
version = "0.1.0"
edition = "2021"
publish = false

[dependencies]
aws-config = "1"
aws-sdk-dynamodb = "1"
axum = "0.6"
prost = "0.12"
tokio = { version = "1", features = ["macros", "rt-multi-thread"] }
