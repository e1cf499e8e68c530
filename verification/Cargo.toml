[package]
name = "mail_laser"
version = "3.1.1"
edition = "2021"
publish = false

[dependencies]
acton-reactive = "=8.2.0"
anyhow = "1"
bytes = "1"
dotenv = "0.15"
hex = "=0.4.3"
hmac = "=0.13.0"
http-body-util = "0.1"
hyper = { version = "=1.12.0", features = ["client", "http1"] }
hyper-rustls = { version = "0.27", default-features = false, features = ["http1", "native-tokio", "ring"] }
hyper-util = { version = "0.1", features = ["client", "client-legacy", "http1", "tokio"] }
log = "0.4"
serde = { version = "1", features = ["derive"] }
serde_json = "1"
sha2 = "=0.11.1"
tokio = { version = "1", features = ["time", "rt", "macros"] }
tracing = "0.1"
