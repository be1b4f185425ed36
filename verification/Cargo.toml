[package]
name = "honeybadger"
version = "0.1.3"
edition = "2021"
publish = false

[dependencies]
error-chain = "0.12"
failure = "0.1"
hostname = "=0.3.1"
http = "=0.2.12"
hyper = { version = "=0.14.32", features = ["client", "http1", "tcp"] }
hyper-tls = "=0.5.0"
os_type = "=2.6.0"
tokio = { version = "=1.53.2", features = ["rt", "time"] }

[dev-dependencies]
serde_json = "=1.0.151"
