[package]
name = "contact_site"
version = "0.1.0"
edition = "2021"
publish = false

[dependencies]
askama = "=0.16.1"
async-stream = "=0.3.6"
axum = "=0.8.9"
config = "=0.15.27"
datastar = { version = "=0.4.1", features = ["axum"] }
serde = { version = "=1.0.229", features = ["derive"] }
serde_json = "=1.0.151"
thiserror = "=2.0.21"
tokio = { version = "=1.53.2", features = ["full"] }
tower-http = { version = "=0.7.1", features = ["fs"] }
tracing = "=0.1.44"
tracing-subscriber = { version = "=0.3.23", features = ["env-filter"] }
