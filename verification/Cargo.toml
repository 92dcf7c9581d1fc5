[package]
name = "xline_operator"
version = "0.1.0"
edition = "2021"
publish = false

[dependencies]
anyhow = "1"
async-trait = "0.1"
axum = "0.6"
clap = { version = "4", features = ["derive"] }
clippy-utilities = "0.2"
flume = "0.10"
futures = "0.3"
k8s-openapi = { version = "0.18", features = ["v1_26", "schemars"] }
kube = { version = "0.83", default-features = false, features = ["client", "rustls-tls", "runtime", "derive", "ws"] }
reqwest = { version = "0.11", default-features = false, features = ["json", "rustls-tls"] }
schemars = "0.8"
serde = { version = "1", features = ["derive"] }
serde_json = "1"
thiserror = "1"
tokio = { version = "1", features = ["macros", "rt-multi-thread", "signal", "time", "sync"] }
tracing = "0.1"
