[package]
name = "rest_proxy"
version = "0.1.0"
edition = "2021"
publish = false

[dependencies]
anyhow = "=1.0.104"
twilight-http-ratelimiting = "=0.16.0"
hyper = { version = "=0.14.32", features = ["client", "http1", "http2", "server", "tcp"] }
hyper-tls = "=0.5.0"
http = "=0.2.12"
tokio = { version = "=1.53.2", features = ["rt-multi-thread", "macros", "sync", "time"] }
dns-lookup = "=2.1.1"
serde = { version = "=1.0.229", features = ["derive"] }
libc = "=0.2.190"
tracing = "=0.1.44"
