[package]
name = "slack_app"
version = "0.1.0"
edition = "2021"
publish = false

[dependencies]
hmac = "*"
sha2 = "*"
hex = "*"
uuid = { version = "*", features = ["v4"] }
chrono = "*"
serde = { version = "*", features = ["derive"] }
serde_json = "*"
thiserror = "*"
tokio = { version = "*", features = ["rt-multi-thread", "sync", "macros"] }
tracing = "*"
async-trait = "*"
lambda_runtime = "*"
reqwest = { version = "*", default-features = false, features = ["form", "json"] }
aws-sdk-dynamodb = "*"
