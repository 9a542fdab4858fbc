[package]
name = "wpbs"
version = "0.1.0"
edition = "2021"
publish = false

[dependencies]
anyhow = "1"
chrono = "0.4"
clap = { version = "4", features = ["derive"] }
cron = "*"
dotenvy = "0.15"
fjall = "*"
futures-util = "0.3"
hashbrown = "*"
reqwest = { version = "0.12", default-features = false, features = ["rustls-tls"] }
rustls = "*"
semver = "1"
serde = { version = "1", features = ["derive"] }
serde_yaml_ng = "*"
sonic-rs = "*"
tokio = { version = "1", features = ["full"] }
tokio-util = { version = "0.7", features = ["rt"] }
tracing = "0.1"
tracing-appender = "0.2"
twilight-gateway = "*"
twilight-http = "*"
twilight-model = "*"
url = "2"
uuid = { version = "1", features = ["v4"] }
