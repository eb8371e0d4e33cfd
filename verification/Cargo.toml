[package]
name = "ironmind"
version = "0.1.0"
edition = "2021"
publish = false

[dependencies]
anyhow = "=1.0.104"
async-trait = "=0.1.92"
aws-config = "=1.13.0"
aws-credential-types = "=1.3.1"
aws-sdk-s3 = "=1.157.0"
axum = "=0.8.9"
# User profiles store a bcrypt hash of the user's API token; tokens are hashed and
# checked with bcrypt.
bcrypt = "0.17"
blake3 = "=1.8.7"
chrono = { version = "=0.4.45", features = ["serde"] }
clap = { version = "=4.6.7", features = ["derive"] }
futures = "=0.3.34"
reqwest = { version = "=0.12.28", features = ["json"] }
serde = { version = "=1.0.229", features = ["derive"] }
serde_json = "=1.0.154"
tokio = { version = "=1.54.1", features = ["full"] }
tokio-stream = "=0.1.19"
toml = "=0.8.23"
tower-http = { version = "=0.6.11", features = ["cors", "fs"] }
tracing = "=0.1.44"
tracing-subscriber = { version = "=0.3.23", features = ["json"] }
uuid = { version = "=1.29.0", features = ["v4"] }
