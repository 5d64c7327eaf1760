[package]
name = "rpc_gate"
version = "0.1.0"
edition = "2021"
publish = false

[dependencies]
axum = { version = "0.6", default-features = false, features = ["http1", "tokio"] }
env_logger = { version = "*", default-features = false }
hyper = { version = "0.14", features = ["client", "http1", "server", "tcp"] }
hyper-tls = "0.5"
log = "*"
tokio = { version = "1", features = ["macros", "net", "rt-multi-thread", "time"] }
