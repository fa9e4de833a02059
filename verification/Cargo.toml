[package]
name = "postrust_graphql"
version = "0.1.0"
edition = "2021"
publish = false

[dependencies]
async-graphql = { version = "=7.2.1", features = ["dynamic-schema"] }
async-graphql-axum = "=7.2.1"
axum = { version = "=0.8.9", features = ["ws"] }
base64 = "=0.22.1"
bytes = "=1.12.1"
futures = "=0.3.34"
indexmap = "=2.14.2"
serde = { version = "=1.0.229", features = ["derive"] }
serde_json = { version = "=1.0.154", features = ["arbitrary_precision"] }
sqlx = { version = "=0.8.6", default-features = false, features = ["runtime-tokio", "postgres", "uuid", "json"] }
tokio = { version = "=1.54.1", features = ["sync", "rt", "macros", "time"] }
tokio-stream = { version = "=0.1.19", features = ["time"] }
tracing = "=0.1.44"
