[package]
name = "fate_todo"
version = "0.1.0"
edition = "2021"
publish = false

[dependencies]
anyhow = "*"
axum = "*"
edgedb-derive = "=0.5.2"
edgedb-protocol = "=0.6.1"
edgedb-tokio = "=0.5.1"
serde = { version = "*", features = ["derive"] }
serde_json = "*"
tokio = { version = "*", features = ["full"] }
tracing = "*"
tracing-subscriber = { version = "*", features = ["env-filter"] }
uuid = { version = "=1.27.0", features = ["v4"] }
