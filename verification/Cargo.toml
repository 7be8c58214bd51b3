[package]
name = "http_proxy_core"
version = "0.1.0"
edition = "2021"
publish = false

[dependencies]
base64 = "*"
http = "*"
percent-encoding = "*"
rand = "*"
tokio = { version = "*", features = ["full"] }
hyper = { version = "*", features = ["full"] }
hyper-util = { version = "*", features = ["full"] }
http-body-util = "*"
serde = { version = "*", features = ["derive"] }
serde_yaml = "*"
clap = { version = "*", features = ["derive"] }
tokio-rustls = { version = "*", default-features = false, features = ["ring", "tls12", "logging"] }
rustls-pemfile = "*"
