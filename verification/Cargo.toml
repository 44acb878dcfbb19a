[package]
name = "tcp_lb"
version = "0.1.0"
edition = "2021"
publish = false

[dependencies]
md5 = "0.7"
uuid = { version = "0.8", features = ["v4"] }
chrono = "0.4"
url = "2"
serde = { version = "1", features = ["derive"] }
serde_json = "1"
tokio = { version = "1", features = ["full"] }
hyper = { version = "0.14", features = ["server", "http1", "tcp"] }
log = "0.4"
flexi_logger = "*"
lazy_static = "1"
