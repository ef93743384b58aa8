[package]
name = "vanguard"
version = "0.1.0"
edition = "2021"
publish = false

[dependencies]
anyhow = "1"
async-trait = "0.1"
axum = "0.7"
azure_identity = { version = "0.21", default-features = false, features = ["enable_reqwest_rustls"] }
azure_security_keyvault = { version = "0.21", default-features = false, features = ["enable_reqwest_rustls"] }
chrono = { version = "0.4", features = ["serde"] }
crossterm = "0.28"
futures = "0.3"
jsonwebtoken = "9"
k8s-openapi = { version = "0.24", features = ["latest"] }
kube = { version = "0.98", default-features = false, features = ["client", "derive", "runtime", "rustls-tls"] }
opentelemetry = "0.27"
opentelemetry-application-insights = { version = "0.37", features = ["reqwest-client"] }
opentelemetry_sdk = { version = "0.27", features = ["rt-tokio"] }
ratatui = "0.29"
reqwest = { version = "0.12", default-features = false, features = ["json", "rustls-tls"] }
schemars = "0.8"
serde = { version = "1", features = ["derive"] }
serde_json = "1"
serde_yaml = "0.9"
thiserror = "1"
tokio = { version = "1", features = ["full"] }
tower-http = { version = "0.6", features = ["cors", "timeout"] }
tracing = "0.1"
tracing-opentelemetry = "0.28"
tracing-subscriber = { version = "0.3", features = ["env-filter"] }
