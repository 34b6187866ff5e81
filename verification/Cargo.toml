[package]
name = "onote_server"
version = "0.1.0"
edition = "2021"
publish = false

[dependencies]
axum = "=0.6.20"
dotenv = "=0.15.0"
futures = "=0.3.34"
mongodb = "=2.8.2"
rand = "=0.8.8"
serde = { version = "=1.0.229", features = ["derive"] }
tokio = { version = "=1.54.1", features = ["full"] }
tokio-stream = { version = "=0.1.19", features = ["time"] }
tower = "=0.4.13"
tower-http = { version = "=0.4.4", features = ["cors"] }
