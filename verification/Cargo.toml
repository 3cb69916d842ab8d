[package]
name = "rs-proxy"
version = "0.1.0"
edition = "2021"
publish = false

[dependencies]
bytes = "=1.12.1"
getopts = "=0.2.24"
proxy-header = "=0.1.3"
thiserror = "=1.0.69"
tokio = { version = "=1.54.1", features = ["time", "macros", "rt"] }
tokio-uring = { version = "=0.5.0", features = ["bytes"] }
