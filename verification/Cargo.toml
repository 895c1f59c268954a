[package]
name = "kube_autorollout"
version = "0.1.0"
edition = "2021"
publish = false

[dependencies]
globset = "=0.4.20"
serde_json = "=1.0.151"
anyhow = "*"
axum = "*"
chrono = "*"
futures = "*"
k8s-openapi = { version = "=0.27.1", features = ["latest"] }
kube = "=3.1.0"
reqwest = { version = "*", features = ["rustls-tls-native-roots"] }
serde = { version = "*", features = ["derive"] }
serde_yaml_ng = "*"
tokio = { version = "*", features = ["full"] }
tokio-cron-scheduler = "*"
tokio-util = "*"
tracing = "*"
tracing-subscriber = "*"
