[package]
name = "tokio_playground"
version = "0.1.0"
edition = "2021"
publish = false

[dependencies]
bytes = "=1.12.1"
chrono = "=0.4.45"
rand = "=0.7.3"
futures = "=0.1.31"
tokio = "=0.1.22"
tokio-core = "=0.1.18"
tokio-io = "=0.1.13"
tokio-tcp = "=0.1.4"
tokio-timer = "=0.2.13"
tokio-executor = "=0.1.10"
futures-util = "=0.3.34"
futures-timer = "=3.0.4"
yamux = "0.1"
