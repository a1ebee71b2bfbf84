[package]
name = "worker"
version = "0.1.0"
edition = "2021"
publish = false

[dependencies]
bollard = "=0.21.1"
env_logger = "=0.11.11"
figment = { version = "=0.10.19", features = ["yaml"] }
futures-util = "=0.3.34"
humantime = "=2.4.0"
log = "=0.4.35"
notify-debouncer-mini = "=0.7.0"
reqwest = "=0.13.5"
rustls = "=0.23.46"
rustls-platform-verifier = "=0.7.1"
serde = { version = "=1.0.229", features = ["derive"] }
sysinfo = "=0.38.4"
tokio = { version = "=1.54.1", features = ["full"] }
tokio-rustls = "=0.26.6"
x509-parser = "=0.18.1"
